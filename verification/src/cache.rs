use vstd::prelude::*;

verus! {

/// A fixed-capacity key-value store with least-recently-used eviction.
///
/// The entries sit in a single vector ordered by recency of access: the front
/// holds the least recently used key, the back the most recently used one. A
/// lookup that hits refreshes its key to the back; an insertion of a fresh key
/// into a full cache first evicts the front. The cache also counts how many
/// lookups hit and how many missed.
pub struct HighPerformanceCache<V> {
    entries: Vec<(String, V)>,
    max_size: usize,
    hits: u64,
    misses: u64,
}

/// Where the entry at position `j` of a sequence of length `n` stood before
/// the entry at position `i` was taken out and a new one was pushed at the
/// back.
spec fn source_index(i: int, n: int, j: int) -> int {
    if j == n - 1 {
        i
    } else if j < i {
        j
    } else {
        j + 1
    }
}

impl<V> HighPerformanceCache<V> {
    /// The entries as (key, value) pairs, least recently used first.
    pub closed spec fn model(self) -> Seq<(Seq<char>, V)> {
        Seq::new(self.entries@.len() as nat, |i: int| (self.entries@[i].0@, self.entries@[i].1))
    }

    /// The fixed capacity.
    pub closed spec fn cap(self) -> int {
        self.max_size as int
    }

    /// How many lookups have hit so far.
    pub closed spec fn spec_hits(self) -> u64 {
        self.hits
    }

    /// How many lookups have missed so far.
    pub closed spec fn spec_misses(self) -> u64 {
        self.misses
    }

    /// Hits and misses together: the number of lookups made so far.
    pub open spec fn counted(self) -> int {
        self.spec_hits() + self.spec_misses()
    }

    /// The number of entries.
    pub open spec fn spec_size(self) -> int {
        self.model().len() as int
    }

    /// Whether some entry holds the key `k`.
    pub open spec fn contains_key(self, k: Seq<char>) -> bool {
        exists|i: int| 0 <= i < self.model().len() && self.model()[i].0 == k
    }

    /// The position of the entry holding `k`, meaningful when `contains_key(k)`.
    pub open spec fn index_of(self, k: Seq<char>) -> int {
        choose|i: int| 0 <= i < self.model().len() && self.model()[i].0 == k
    }

    /// The value stored under `k`, meaningful when `contains_key(k)`.
    pub open spec fn value_of(self, k: Seq<char>) -> V {
        self.model()[self.index_of(k)].1
    }

    /// No key occurs at two positions.
    pub open spec fn keys_distinct(self) -> bool {
        forall|i: int, j: int|
            0 <= i < j < self.model().len() ==> self.model()[i].0 != self.model()[j].0
    }

    /// Well-formedness: the capacity is positive, the size never exceeds it,
    /// no key occurs twice, and the lookup counters never overflow.
    pub open spec fn wf(self) -> bool {
        &&& self.cap() > 0
        &&& self.spec_size() <= self.cap()
        &&& self.keys_distinct()
        &&& self.counted() <= u64::MAX
    }

    /// With distinct keys, the key of an entry determines its position.
    proof fn lemma_index_unique(self, i: int)
        requires
            self.keys_distinct(),
            0 <= i < self.model().len(),
        ensures
            self.contains_key(self.model()[i].0),
            self.index_of(self.model()[i].0) == i,
    {
        let k = self.model()[i].0;
        assert(self.contains_key(k));
        let j = self.index_of(k);
        if i < j {
            assert(self.model()[i].0 != self.model()[j].0);
        } else if j < i {
            assert(self.model()[j].0 != self.model()[i].0);
        }
    }

    /// What taking the entry at `i` out and pushing the pair `p` at the back
    /// does to membership, to the stored values and to distinctness, provided
    /// no surviving entry shares the key of `p`.
    proof fn lemma_replace_at(self, pre: Self, i: int, p: (Seq<char>, V))
        requires
            pre.keys_distinct(),
            0 <= i < pre.model().len(),
            self.model() =~= pre.model().remove(i).push(p),
            forall|j: int| 0 <= j < pre.model().len() && j != i ==> pre.model()[j].0 != p.0,
        ensures
            self.model().len() == pre.model().len(),
            self.keys_distinct(),
            forall|k: Seq<char>|
                self.contains_key(k) <==> (k == p.0 || (pre.contains_key(k) && k
                    != pre.model()[i].0)),
            self.contains_key(p.0),
            self.value_of(p.0) == p.1,
            forall|k: Seq<char>|
                pre.contains_key(k) && k != pre.model()[i].0 && k != p.0 ==> self.value_of(k)
                    == pre.value_of(k),
    {
        let m1 = pre.model();
        let m2 = self.model();
        let n = m1.len() as int;
        m1.remove_ensures(i);
        assert(m2.len() == n);
        assert forall|j: int| 0 <= j < n implies m2[j] == (if j == n - 1 {
            p
        } else {
            m1[source_index(i, n, j)]
        }) by {
            if j < n - 1 {
                assert(m2[j] == m1.remove(i)[j]);
            }
        }
        // distinctness: two surviving positions come from two distinct old
        // positions, and the pushed pair's key is fresh among the survivors
        assert forall|a: int, b: int| 0 <= a < b < n implies m2[a].0 != m2[b].0 by {
            if b == n - 1 {
                let sa = source_index(i, n, a);
                assert(m2[a] == m1[sa] && sa != i);
            } else {
                let sa = source_index(i, n, a);
                let sb = source_index(i, n, b);
                assert(m2[a] == m1[sa] && m2[b] == m1[sb] && sa < sb);
            }
        }
        assert(m2[n - 1] == p);
        assert(self.contains_key(p.0));
        self.lemma_index_unique(n - 1);
        assert(self.value_of(p.0) == p.1);
        assert forall|k: Seq<char>|
            self.contains_key(k) implies (k == p.0 || (pre.contains_key(k) && k != m1[i].0)) by {
            let a = self.index_of(k);
            if a < n - 1 {
                let sa = source_index(i, n, a);
                assert(m2[a] == m1[sa] && sa != i);
                assert(pre.contains_key(k));
                pre.lemma_index_unique(sa);
                pre.lemma_index_unique(i);
                assert(k != m1[i].0);
            }
        }
        assert forall|k: Seq<char>|
            (k == p.0 || (pre.contains_key(k) && k != m1[i].0)) implies self.contains_key(k) by {
            if k == p.0 {
                assert(m2[n - 1].0 == k);
            } else {
                let a = pre.index_of(k);
                pre.lemma_index_unique(a);
                if a != i {
                    let b: int = if a < i {
                        a
                    } else {
                        a - 1
                    };
                    assert(m2[b] == m1[a]);
                }
            }
        }
        assert forall|k: Seq<char>|
            pre.contains_key(k) && k != m1[i].0 && k != p.0 implies self.value_of(k)
            == pre.value_of(k) by {
            let a = pre.index_of(k);
            pre.lemma_index_unique(a);
            let b: int = if a < i {
                a
            } else {
                a - 1
            };
            assert(m2[b] == m1[a]);
            self.lemma_index_unique(b);
        }
    }

    /// Creates an empty cache that will hold at most `max_size` entries.
    pub fn new(max_size: usize) -> (r: Self)
        requires
            max_size > 0,
        ensures
            r.wf(),
            r.model() =~= Seq::<(Seq<char>, V)>::empty(),
            r.cap() == max_size,
            r.spec_hits() == 0,
            r.spec_misses() == 0,
    {
        HighPerformanceCache { entries: Vec::new(), max_size, hits: 0, misses: 0 }
    }

    /// The number of entries currently stored.
    pub fn size(&self) -> (r: usize)
        ensures
            r == self.spec_size(),
    {
        self.entries.len()
    }

    /// The fixed capacity given at construction.
    pub fn capacity(&self) -> (r: usize)
        ensures
            r == self.cap(),
    {
        self.max_size
    }

    /// How often lookups hit and how often they missed: the pair of the hit
    /// count and the total lookup count. The quotient of the two is the hit
    /// rate; a total of zero means no lookup was made yet, which counts as a
    /// rate of zero.
    pub fn hit_rate(&self) -> (r: (u64, u64))
        requires
            self.wf(),
        ensures
            r.0 == self.spec_hits(),
            r.1 == self.counted(),
    {
        (self.hits, self.hits + self.misses)
    }

    /// The position of the entry holding `key`, if any.
    fn position_of(&self, key: &String) -> (r: Option<usize>)
        ensures
            match r {
                Some(i) => i < self.model().len() && self.model()[i as int].0 == key@,
                None => !self.contains_key(key@),
            },
    {
        let n = self.entries.len();
        let mut i: usize = 0;
        while i < n
            invariant
                n == self.entries@.len(),
                i <= n,
                forall|j: int| 0 <= j < i ==> self.model()[j].0 != key@,
            decreases n - i,
        {
            if self.entries[i].0 == *key {
                return Some(i);
            }
            i += 1;
        }
        None
    }

    /// Stores `value` under `key`, at the most-recently-used position. A key
    /// already present is refreshed and its value replaced, without eviction;
    /// a fresh key entering a full cache first evicts the least recently used
    /// entry, at the front. The lookup counters do not move.
    pub fn put(&mut self, key: String, value: V)
        requires
            old(self).wf(),
        ensures
            final(self).wf(),
            final(self).cap() == old(self).cap(),
            final(self).spec_hits() == old(self).spec_hits(),
            final(self).spec_misses() == old(self).spec_misses(),
            final(self).spec_size() <= final(self).cap(),
            final(self).contains_key(key@),
            final(self).value_of(key@) == value,
            // the stored key is now the most recently used one
            final(self).model().len() > 0 && final(self).model().last() == (key@, value),
            // what happens to the entries, case by case
            old(self).contains_key(key@) ==> final(self).model() =~= old(self).model().remove(
                old(self).index_of(key@),
            ).push((key@, value)),
            !old(self).contains_key(key@) && old(self).spec_size() < old(self).cap() ==> final(self).model() =~= old(self).model().push((key@, value)),
            !old(self).contains_key(key@) && old(self).spec_size() == old(self).cap() ==> final(self).model() =~= old(self).model().remove(0).push((key@, value)),
            // which keys survive, and with which values
            forall|k: Seq<char>|
                final(self).contains_key(k) ==> k == key@ || old(self).contains_key(k),
            forall|k: Seq<char>|
                old(self).contains_key(k) && k != key@ && final(self).contains_key(k) ==> final(self).value_of(k) == old(self).value_of(k),
            // nothing but the least recently used entry is ever evicted
            (old(self).contains_key(key@) || old(self).spec_size() < old(self).cap())
                ==> (forall|k: Seq<char>|
                old(self).contains_key(k) ==> final(self).contains_key(k)),
            (!old(self).contains_key(key@) && old(self).spec_size() == old(self).cap())
                ==> (forall|k: Seq<char>|
                old(self).contains_key(k) ==> (final(self).contains_key(k) <==> k != old(self).model()[0].0)),
    {
        let ghost pre = *self;
        match self.position_of(&key) {
            Some(i) => {
                proof {
                    pre.lemma_index_unique(i as int);
                }
                let _stale = self.entries.remove(i);
                self.entries.push((key, value));
                proof {
                    let gi = pre.index_of(key@);
                    assert(self.model() =~= pre.model().remove(gi).push((key@, value)));
                    self.lemma_replace_at(pre, gi, (key@, value));
                }
            },
            None => {
                if self.entries.len() >= self.max_size {
                    let _evicted = self.entries.remove(0);
                    self.entries.push((key, value));
                    proof {
                        assert(self.model() =~= pre.model().remove(0).push((key@, value)));
                        self.lemma_replace_at(pre, 0, (key@, value));
                        pre.lemma_index_unique(0);
                    }
                } else {
                    self.entries.push((key, value));
                    proof {
                        let m1 = pre.model();
                        let m2 = self.model();
                        assert(m2 =~= m1.push((key@, value)));
                        assert forall|a: int, b: int|
                            0 <= a < b < m2.len() implies m2[a].0 != m2[b].0 by {
                            if b == m2.len() - 1 {
                                assert(m1[a].0 != key@);
                            }
                        }
                        self.lemma_index_unique(m2.len() - 1);
                        assert forall|k: Seq<char>|
                            pre.contains_key(k) implies self.contains_key(k) && self.value_of(k)
                            == (if k == key@ {
                            value
                        } else {
                            pre.value_of(k)
                        }) by {
                            let a = pre.index_of(k);
                            assert(m2[a] == m1[a]);
                            assert(self.contains_key(k));
                            self.lemma_index_unique(a);
                            pre.lemma_index_unique(a);
                            assert(k != key@);
                        }
                        assert forall|k: Seq<char>|
                            self.contains_key(k) implies k == key@ || pre.contains_key(k) by {
                            let a = self.index_of(k);
                            if a < m2.len() - 1 {
                                assert(m2[a] == m1[a]);
                            }
                        }
                    }
                }
            },
        }
    }

    /// A key refreshed by a hit is not the next to be evicted: after a
    /// lookup hit moved `k` to the most-recently-used position of a cache
    /// with at least two entries, an insertion of a fresh key into the
    /// then-full cache evicts the front entry and keeps `k`. The second and
    /// third hypotheses are what `get` ensures of a hit; the last is what
    /// `put` ensures of a fresh key entering a full cache.
    pub proof fn lemma_refreshed_key_survives_eviction(
        c0: Self,
        c1: Self,
        c2: Self,
        k: Seq<char>,
        fresh: Seq<char>,
    )
        requires
            c0.wf(),
            c1.wf(),
            c0.contains_key(k),
            c0.spec_size() >= 2,
            c1.model() =~= c0.model().remove(c0.index_of(k)).push(c0.model()[c0.index_of(k)]),
            !c1.contains_key(fresh),
            c1.spec_size() == c1.cap(),
            forall|k2: Seq<char>|
                c1.contains_key(k2) ==> (c2.contains_key(k2) <==> k2 != c1.model()[0].0),
        ensures
            c2.contains_key(k),
    {
        let i = c0.index_of(k);
        let n = c1.model().len() as int;
        assert(n == c0.model().len());
        assert(c1.model()[n - 1] == c0.model()[i]);
        assert(c1.model()[n - 1].0 == k);
        assert(c1.contains_key(k));
        assert(c1.model()[0].0 != c1.model()[n - 1].0);
    }
}

impl<V: Clone> HighPerformanceCache<V> {
    /// Looks the key up. On a hit the hit counter goes up by one, the key is
    /// refreshed to the most-recently-used position and a clone of the stored
    /// value comes back; on a miss the miss counter goes up by one and nothing
    /// else changes. Every lookup bumps exactly one of the two counters, until
    /// their sum saturates.
    pub fn get(&mut self, key: &String) -> (r: Option<V>)
        requires
            old(self).wf(),
        ensures
            final(self).wf(),
            final(self).cap() == old(self).cap(),
            final(self).spec_size() == old(self).spec_size(),
            forall|k: Seq<char>| final(self).contains_key(k) <==> old(self).contains_key(k),
            forall|k: Seq<char>|
                old(self).contains_key(k) ==> final(self).value_of(k) == old(self).value_of(k),
            old(self).contains_key(key@) ==> (r matches Some(v) && cloned(
                old(self).value_of(key@),
                v,
            )),
            old(self).contains_key(key@) ==> final(self).model() =~= old(self).model().remove(
                old(self).index_of(key@),
            ).push(old(self).model()[old(self).index_of(key@)]),
            !old(self).contains_key(key@) ==> r is None && final(self).model() == old(self).model(),
            old(self).contains_key(key@) ==> final(self).spec_misses() == old(self).spec_misses(),
            !old(self).contains_key(key@) ==> final(self).spec_hits() == old(self).spec_hits(),
            old(self).counted() < u64::MAX ==> final(self).counted() == old(self).counted() + 1,
            old(self).counted() == u64::MAX ==> final(self).counted() == old(self).counted(),
    {
        let ghost pre = *self;
        match self.position_of(key) {
            Some(i) => {
                proof {
                    pre.lemma_index_unique(i as int);
                }
                let entry = self.entries.remove(i);
                let value = entry.1.clone();
                self.entries.push(entry);
                let total = self.hits + self.misses;
                if total < u64::MAX {
                    self.hits = self.hits + 1;
                }
                proof {
                    let gi = pre.index_of(key@);
                    assert(self.model() =~= pre.model().remove(gi).push(pre.model()[gi]));
                    self.lemma_replace_at(pre, gi, pre.model()[gi]);
                }
                Some(value)
            },
            None => {
                let total = self.hits + self.misses;
                if total < u64::MAX {
                    self.misses = self.misses + 1;
                }
                None
            },
        }
    }
}

} // verus!
