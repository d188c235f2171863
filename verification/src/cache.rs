//! The analysis cache state machine shared by both manager
//! granularities.
//!
//! Per analysis key and IR unit, a result moves through the states
//! `Unregistered -> Registered -> Computing -> Cached`, falls back to
//! `Registered` when the unit is invalidated, and re-enters `Computing`
//! on the next query. Computing is strictly non-reentrant: while a key
//! is being computed, no query for that key may be issued, which rules
//! out an analysis requesting its own in-flight result.
//!
//! The cache stores one opaque payload per (key, unit) pair; the typed
//! face of a payload is the result boxing protocol. A ghost history of
//! completed computations lets callers state and prove compute-once
//! and invalidate-then-recompute laws.

use vstd::prelude::*;

use crate::keys::AnalysisKey;

verus! {

/// One cached result: the analysis it belongs to, the IR unit it was
/// computed on, and the payload handed over by the computation.
#[derive(Clone, Copy)]
pub struct CacheEntry<V> {
    /// Key of the analysis that produced the value.
    pub key: AnalysisKey,
    /// Address of the IR unit the value was computed on.
    pub unit: usize,
    /// The cached payload.
    pub value: V,
}

/// Cache of analysis results for one manager: the set of registered
/// analysis keys, the cached results per (key, unit) pair, the pairs
/// whose computation is in flight, and a ghost log of completed
/// computations.
pub struct AnalysisCache<V> {
    registered: Vec<AnalysisKey>,
    entries: Vec<CacheEntry<V>>,
    computing: Vec<(AnalysisKey, usize)>,
    history: Ghost<Seq<(AnalysisKey, usize)>>,
}

/// Number of times the pair `p` occurs in the computation log `s`.
pub open spec fn occurrences(s: Seq<(AnalysisKey, usize)>, p: (AnalysisKey, usize)) -> nat
    decreases s.len(),
{
    if s.len() == 0 {
        0
    } else {
        occurrences(s.drop_last(), p) + if s.last() == p {
            1nat
        } else {
            0nat
        }
    }
}

/// A log extension that adds no occurrence of `p` leaves the count of
/// `p` unchanged.
pub proof fn lemma_occurrences_unchanged(
    pre: Seq<(AnalysisKey, usize)>,
    post: Seq<(AnalysisKey, usize)>,
    p: (AnalysisKey, usize),
)
    requires
        pre.is_prefix_of(post),
        forall|i: int| pre.len() <= i < post.len() ==> post[i] != p,
    ensures
        occurrences(post, p) == occurrences(pre, p),
    decreases post.len() - pre.len(),
{
    if pre.len() == post.len() {
        assert(pre =~= post);
    } else {
        let shorter = post.drop_last();
        assert(pre.is_prefix_of(shorter));
        lemma_occurrences_unchanged(pre, shorter, p);
    }
}

/// Appending `q` to a log increments the count of `q` and leaves the
/// count of any other pair unchanged.
pub proof fn lemma_occurrences_push(
    s: Seq<(AnalysisKey, usize)>,
    q: (AnalysisKey, usize),
    p: (AnalysisKey, usize),
)
    ensures
        occurrences(s.push(q), q) == occurrences(s, q) + 1,
        p != q ==> occurrences(s.push(q), p) == occurrences(s, p),
{
    assert(s.push(q).drop_last() =~= s);
}

impl<V> AnalysisCache<V> {
    /// Keys of the analyses registered so far.
    pub closed spec fn registered(self) -> Set<AnalysisKey> {
        Set::new(|k: AnalysisKey| self.registered@.contains(k))
    }

    /// (key, unit) pairs whose computation is in flight.
    pub closed spec fn computing(self) -> Set<(AnalysisKey, usize)> {
        Set::new(|p: (AnalysisKey, usize)| self.computing@.contains(p))
    }

    /// Log of completed computations, in completion order.
    pub closed spec fn history(self) -> Seq<(AnalysisKey, usize)> {
        self.history@
    }

    /// Whether some computation of the analysis `k` is in flight, on
    /// any unit.
    pub open spec fn key_computing(self, k: AnalysisKey) -> bool {
        exists|p: (AnalysisKey, usize)| #[trigger] self.computing().contains(p) && p.0 == k
    }

    spec fn entry_matches(self, i: int, k: AnalysisKey, u: usize) -> bool {
        &&& 0 <= i < self.entries@.len()
        &&& self.entries@[i].key == k
        &&& self.entries@[i].unit == u
    }

    /// Whether a result for analysis `k` on unit `u` is in the cache.
    pub closed spec fn has_cached(self, k: AnalysisKey, u: usize) -> bool {
        exists|i: int| self.entry_matches(i, k, u)
    }

    /// The cached result for analysis `k` on unit `u`, if any.
    pub closed spec fn cached_at(self, k: AnalysisKey, u: usize) -> Option<V> {
        if self.has_cached(k, u) {
            Some(self.entries@[choose|i: int| self.entry_matches(i, k, u)].value)
        } else {
            Option::<V>::None
        }
    }

    spec fn drawn_from(s: Seq<CacheEntry<V>>, e: CacheEntry<V>, bound: int) -> bool {
        exists|m: int| 0 <= m < bound && s[m] == e
    }

    proof fn lemma_drawn_from_intro(s: Seq<CacheEntry<V>>, m: int, bound: int)
        requires
            0 <= m < bound,
            m < s.len(),
        ensures
            Self::drawn_from(s, s[m], bound),
    {
        assert(0 <= m < bound && s[m] == s[m]);
    }

    proof fn lemma_drawn_from_index(s: Seq<CacheEntry<V>>, e: CacheEntry<V>, bound: int) -> (m:
        int)
        requires
            Self::drawn_from(s, e, bound),
        ensures
            0 <= m < bound,
            s[m] == e,
    {
        choose|m: int| 0 <= m < bound && s[m] == e
    }

    spec fn entries_distinct(self) -> bool {
        forall|i: int, j: int| #![trigger self.entries@[i], self.entries@[j]]
            0 <= i < j < self.entries@.len() ==> !(self.entries@[i].key == self.entries@[j].key
                && self.entries@[i].unit == self.entries@[j].unit)
    }

    /// Well-formedness: registered keys are distinct, every cached
    /// entry belongs to a registered analysis and no (key, unit) pair
    /// is cached twice, and every in-flight pair is registered, unique,
    /// and not yet cached.
    pub closed spec fn wf(self) -> bool {
        &&& forall|i: int, j: int| #![trigger self.registered@[i], self.registered@[j]]
            0 <= i < j < self.registered@.len() ==> self.registered@[i] != self.registered@[j]
        &&& self.entries_distinct()
        &&& forall|i: int|
            0 <= i < self.entries@.len() ==> self.registered().contains(
                #[trigger] self.entries@[i].key,
            )
        &&& forall|i: int, j: int| #![trigger self.computing@[i], self.computing@[j]]
            0 <= i < j < self.computing@.len() ==> self.computing@[i] != self.computing@[j]
        &&& forall|p: (AnalysisKey, usize)| #[trigger]
            self.computing().contains(p) ==> self.registered().contains(p.0) && !self.has_cached(
                p.0,
                p.1,
            )
    }

    /// Any entry index matching (k, u) determines the cached value:
    /// with distinct entries, the matching entry is unique.
    proof fn lemma_cached_value(self, i: int, k: AnalysisKey, u: usize)
        requires
            self.entries_distinct(),
            self.entry_matches(i, k, u),
        ensures
            self.cached_at(k, u) == Some(self.entries@[i].value),
    {
        let j = choose|j: int| self.entry_matches(j, k, u);
        if i < j {
            assert(false);
        } else if j < i {
            assert(false);
        }
    }

    /// Two caches with the same, duplicate-free entries agree on every
    /// cached result.
    proof fn lemma_same_entries(self, other: AnalysisCache<V>, k: AnalysisKey, u: usize)
        requires
            self.entries@ == other.entries@,
            self.entries_distinct(),
        ensures
            self.cached_at(k, u) == other.cached_at(k, u),
            self.has_cached(k, u) == other.has_cached(k, u),
    {
        if self.has_cached(k, u) {
            let i = choose|i: int| self.entry_matches(i, k, u);
            assert(other.entry_matches(i, k, u));
        }
        if other.has_cached(k, u) {
            let i = choose|i: int| other.entry_matches(i, k, u);
            assert(self.entry_matches(i, k, u));
        }
        if self.has_cached(k, u) && other.has_cached(k, u) {
            assert(other.entries_distinct());
            let i = choose|i: int| self.entry_matches(i, k, u);
            self.lemma_cached_value(i, k, u);
            assert(other.entry_matches(i, k, u));
            other.lemma_cached_value(i, k, u);
        }
    }

}

impl<V: Copy> AnalysisCache<V> {
    /// An empty cache: nothing registered, nothing cached, nothing in
    /// flight, an empty log.
    pub fn new() -> (r: AnalysisCache<V>)
        ensures
            r.wf(),
            r.registered() == Set::<AnalysisKey>::empty(),
            r.computing() == Set::<(AnalysisKey, usize)>::empty(),
            r.history() == Seq::<(AnalysisKey, usize)>::empty(),
            forall|k: AnalysisKey, u: usize| r.cached_at(k, u) is None,
    {
        let r = AnalysisCache {
            registered: Vec::new(),
            entries: Vec::new(),
            computing: Vec::new(),
            history: Ghost(Seq::empty()),
        };
        proof {
            assert(r.registered() =~= Set::<AnalysisKey>::empty());
            assert(r.computing() =~= Set::<(AnalysisKey, usize)>::empty());
            assert forall|k: AnalysisKey, u: usize| r.cached_at(k, u) is None by {
                if r.has_cached(k, u) {
                    let i = choose|i: int| r.entry_matches(i, k, u);
                    assert(false);
                }
            }
        }
        r
    }

    fn find_registered(&self, k: AnalysisKey) -> (r: bool)
        ensures
            r == self.registered().contains(k),
    {
        let mut i: usize = 0;
        while i < self.registered.len()
            invariant
                i <= self.registered@.len(),
                forall|j: int| 0 <= j < i ==> self.registered@[j] != k,
            decreases self.registered@.len() - i,
        {
            if self.registered[i] == k {
                assert(self.registered@.contains(k));
                return true;
            }
            i = i + 1;
        }
        proof {
            if self.registered@.contains(k) {
                let j = choose|j: int|
                    0 <= j < self.registered@.len() && self.registered@[j] == k;
                assert(false);
            }
        }
        false
    }

    fn find_entry(&self, k: AnalysisKey, u: usize) -> (r: Option<usize>)
        ensures
            match r {
                Some(i) => self.entry_matches(i as int, k, u),
                Option::<usize>::None => !self.has_cached(k, u),
            },
    {
        let mut i: usize = 0;
        while i < self.entries.len()
            invariant
                i <= self.entries@.len(),
                forall|j: int|
                    0 <= j < i ==> !(self.entries@[j].key == k && self.entries@[j].unit == u),
            decreases self.entries@.len() - i,
        {
            if self.entries[i].key == k && self.entries[i].unit == u {
                return Some(i);
            }
            i = i + 1;
        }
        proof {
            if self.has_cached(k, u) {
                let j = choose|j: int| self.entry_matches(j, k, u);
                assert(false);
            }
        }
        Option::<usize>::None
    }

    /// Whether the analysis key `k` is registered.
    pub fn is_registered(&self, k: AnalysisKey) -> (r: bool)
        ensures
            r == self.registered().contains(k),
    {
        self.find_registered(k)
    }

    /// Whether some computation of the analysis `k` is in flight.
    pub fn is_key_computing(&self, k: AnalysisKey) -> (r: bool)
        ensures
            r == self.key_computing(k),
    {
        let mut i: usize = 0;
        while i < self.computing.len()
            invariant
                i <= self.computing@.len(),
                forall|j: int| 0 <= j < i ==> (#[trigger] self.computing@[j]).0 != k,
            decreases self.computing@.len() - i,
        {
            let p = self.computing[i];
            if p.0 == k {
                proof {
                    assert(self.computing@.contains(p));
                    assert(self.computing().contains(p));
                }
                return true;
            }
            i = i + 1;
        }
        proof {
            if self.key_computing(k) {
                let p = choose|p: (AnalysisKey, usize)|
                    self.computing().contains(p) && p.0 == k;
                let j = choose|j: int|
                    0 <= j < self.computing@.len() && self.computing@[j] == p;
                assert(false);
            }
        }
        false
    }

    /// Registers the analysis key `k` unless it is taken: duplicate
    /// registration of one analysis type is refused and reported, so
    /// the caller can raise the fatal contract violation the host
    /// demands rather than silently accept it. Returns whether the
    /// registration took place.
    pub fn try_register(&mut self, k: AnalysisKey) -> (r: bool)
        requires
            old(self).wf(),
        ensures
            final(self).wf(),
            r == !old(self).registered().contains(k),
            r ==> final(self).registered() == old(self).registered().insert(k),
            !r ==> final(self).registered() == old(self).registered(),
            final(self).computing() == old(self).computing(),
            final(self).history() == old(self).history(),
            forall|k2: AnalysisKey, u: usize|
                final(self).cached_at(k2, u) == old(self).cached_at(k2, u),
    {
        let ghost pre = *old(self);
        if self.find_registered(k) {
            proof {
                assert(self.registered() =~= pre.registered());
                assert(self.computing() =~= pre.computing());
                assert forall|k2: AnalysisKey, u: usize|
                    self.cached_at(k2, u) == pre.cached_at(k2, u) by {
                    self.lemma_same_entries(pre, k2, u);
                }
            }
            return false;
        }
        self.registered.push(k);
        proof {
            let n = pre.registered@.len() as int;
            assert forall|x: AnalysisKey| #[trigger] self.registered@.contains(x) implies pre
                .registered@.contains(x) || x == k by {
                let j = choose|j: int|
                    0 <= j < self.registered@.len() && self.registered@[j] == x;
                if j < n {
                    assert(pre.registered@[j] == x);
                }
            }
            assert forall|x: AnalysisKey| #[trigger] pre.registered@.contains(x) implies self
                .registered@.contains(x) by {
                let j = choose|j: int|
                    0 <= j < pre.registered@.len() && pre.registered@[j] == x;
                assert(self.registered@[j] == x);
            }
            assert(self.registered@[n] == k);
            assert(self.registered@.contains(k));
            assert(self.registered() =~= pre.registered().insert(k));
            assert(self.computing() =~= pre.computing());
            assert forall|k2: AnalysisKey, u: usize|
                self.cached_at(k2, u) == pre.cached_at(k2, u) by {
                self.lemma_same_entries(pre, k2, u);
            }
            // wf: the new key was not registered, so distinctness holds
            assert forall|i: int, j: int| #![trigger self.registered@[i], self.registered@[j]]
                0 <= i < j < self.registered@.len() implies self.registered@[i]
                != self.registered@[j] by {
                if j == n && self.registered@[i] == k {
                    assert(pre.registered@[i] == k);
                    assert(pre.registered@.contains(k));
                    assert(false);
                }
            }
            assert forall|i: int|
                0 <= i < self.entries@.len() implies self.registered().contains(
                #[trigger] self.entries@[i].key,
            ) by {
                assert(pre.registered().contains(pre.entries@[i].key));
            }
            assert forall|p: (AnalysisKey, usize)| #[trigger]
                self.computing().contains(p) implies self.registered().contains(p.0)
                && !self.has_cached(p.0, p.1) by {
                assert(pre.computing().contains(p));
                self.lemma_same_entries(pre, p.0, p.1);
            }
        }
        true
    }

    /// Looks up the cached result for analysis `k` on unit `u` without
    /// ever triggering a computation.
    pub fn lookup(&self, k: AnalysisKey, u: usize) -> (r: Option<V>)
        requires
            self.wf(),
        ensures
            r == self.cached_at(k, u),
    {
        match self.find_entry(k, u) {
            Some(i) => {
                proof {
                    self.lemma_cached_value(i as int, k, u);
                }
                Some(self.entries[i].value)
            },
            Option::<usize>::None => Option::<V>::None,
        }
    }

    /// Marks the computation of analysis `k` on unit `u` as in flight.
    /// Requires that no computation of `k` is already running: the
    /// computing state is strictly non-reentrant per analysis.
    pub fn begin_computation(&mut self, k: AnalysisKey, u: usize)
        requires
            old(self).wf(),
            old(self).registered().contains(k),
            !old(self).key_computing(k),
            old(self).cached_at(k, u) is None,
        ensures
            final(self).wf(),
            final(self).registered() == old(self).registered(),
            final(self).computing() == old(self).computing().insert((k, u)),
            final(self).history() == old(self).history(),
            forall|k2: AnalysisKey, u2: usize|
                final(self).cached_at(k2, u2) == old(self).cached_at(k2, u2),
    {
        let ghost pre = *old(self);
        self.computing.push((k, u));
        proof {
            let n = pre.computing@.len() as int;
            assert forall|p: (AnalysisKey, usize)| #[trigger]
                self.computing@.contains(p) implies pre.computing@.contains(p) || p == (k, u) by {
                let j = choose|j: int| 0 <= j < self.computing@.len() && self.computing@[j] == p;
                if j < n {
                    assert(pre.computing@[j] == p);
                }
            }
            assert forall|p: (AnalysisKey, usize)| #[trigger]
                pre.computing@.contains(p) implies self.computing@.contains(p) by {
                let j = choose|j: int|
                    0 <= j < pre.computing@.len() && pre.computing@[j] == p;
                assert(self.computing@[j] == p);
            }
            assert(self.computing@[n] == (k, u));
            assert(self.computing@.contains((k, u)));
            assert(self.computing() =~= pre.computing().insert((k, u)));
            assert(self.registered() =~= pre.registered());
            assert forall|k2: AnalysisKey, u2: usize|
                self.cached_at(k2, u2) == pre.cached_at(k2, u2) by {
                self.lemma_same_entries(pre, k2, u2);
            }
            // wf: the pushed pair is fresh because its key was not
            // computing at all
            assert forall|i: int, j: int| #![trigger self.computing@[i], self.computing@[j]]
                0 <= i < j < self.computing@.len() implies self.computing@[i]
                != self.computing@[j] by {
                if j == n && self.computing@[i] == (k, u) {
                    assert(pre.computing@[i] == (k, u));
                    assert(pre.computing@.contains((k, u)));
                    assert(pre.computing().contains((k, u)));
                    assert(false);
                }
            }
            assert forall|p: (AnalysisKey, usize)| #[trigger]
                self.computing().contains(p) implies self.registered().contains(p.0)
                && !self.has_cached(p.0, p.1) by {
                self.lemma_same_entries(pre, p.0, p.1);
                if p != (k, u) {
                    assert(pre.computing().contains(p));
                }
            }
        }
    }

    fn find_computing(&self, k: AnalysisKey, u: usize) -> (r: usize)
        requires
            self.computing().contains((k, u)),
        ensures
            r < self.computing@.len(),
            self.computing@[r as int] == (k, u),
    {
        let mut i: usize = 0;
        while i < self.computing.len()
            invariant
                i <= self.computing@.len(),
                self.computing@.contains((k, u)),
                forall|j: int| 0 <= j < i ==> self.computing@[j] != (k, u),
            decreases self.computing@.len() - i,
        {
            let p = self.computing[i];
            if p.0 == k && p.1 == u {
                return i;
            }
            i = i + 1;
        }
        proof {
            let j = choose|j: int|
                0 <= j < self.computing@.len() && self.computing@[j] == (k, u);
            assert(false);
        }
        0
    }

    /// Records the result `v` of the in-flight computation of analysis
    /// `k` on unit `u`: the pair leaves the computing state, the value
    /// enters the cache, and the completion is logged.
    pub fn complete_computation(&mut self, k: AnalysisKey, u: usize, v: V)
        requires
            old(self).wf(),
            old(self).computing().contains((k, u)),
        ensures
            final(self).wf(),
            final(self).registered() == old(self).registered(),
            final(self).computing() == old(self).computing().remove((k, u)),
            final(self).history() == old(self).history().push((k, u)),
            final(self).cached_at(k, u) == Some(v),
            forall|k2: AnalysisKey, u2: usize|
                !(k2 == k && u2 == u) ==> final(self).cached_at(k2, u2) == old(self).cached_at(
                    k2,
                    u2,
                ),
    {
        let ghost pre = *old(self);
        let idx = self.find_computing(k, u);
        self.computing.remove(idx);
        self.entries.push(CacheEntry { key: k, unit: u, value: v });
        self.history = Ghost(self.history@.push((k, u)));
        proof {
            pre.computing@.remove_ensures(idx as int);
            assert(pre.computing@[idx as int] == (k, u));
            assert forall|p: (AnalysisKey, usize)| #[trigger]
                self.computing@.contains(p) implies pre.computing@.contains(p) && p != (k, u) by {
                let j = choose|j: int| 0 <= j < self.computing@.len() && self.computing@[j] == p;
                if j < idx {
                    assert(pre.computing@[j] == p);
                } else {
                    assert(pre.computing@[j + 1] == p);
                }
                // p != (k, u): pre.computing is duplicate-free and p
                // occurs at an index other than idx
                if p == (k, u) {
                    if j < idx {
                        assert(pre.computing@[j] == pre.computing@[idx as int]);
                        assert(false);
                    } else {
                        assert(pre.computing@[j + 1] == pre.computing@[idx as int]);
                        assert(false);
                    }
                }
            }
            assert forall|p: (AnalysisKey, usize)|
                pre.computing@.contains(p) && p != (k, u) implies #[trigger] self.computing@
                .contains(p) by {
                let j = choose|j: int|
                    0 <= j < pre.computing@.len() && pre.computing@[j] == p;
                if j < idx {
                    assert(self.computing@[j] == p);
                } else if j == idx {
                    assert(false);
                } else {
                    assert(self.computing@[j - 1] == p);
                }
            }
            assert(self.computing() =~= pre.computing().remove((k, u)));
            assert(self.registered() =~= pre.registered());
            // computing stays duplicate-free after the removal
            assert forall|i: int, j: int| #![trigger self.computing@[i], self.computing@[j]]
                0 <= i < j < self.computing@.len() implies self.computing@[i]
                != self.computing@[j] by {
                let i0: int = if i < idx { i } else { i + 1 };
                let j0: int = if j < idx { j } else { j + 1 };
                assert(self.computing@[i] == pre.computing@[i0]);
                assert(self.computing@[j] == pre.computing@[j0]);
            }
            // the new entry is the unique match for (k, u)
            let n = pre.entries@.len() as int;
            assert(self.entry_matches(n, k, u));
            assert forall|i: int, j: int| #![trigger self.entries@[i], self.entries@[j]]
                0 <= i < j < self.entries@.len() implies !(self.entries@[i].key
                == self.entries@[j].key && self.entries@[i].unit == self.entries@[j].unit) by {
                if j < n {
                    assert(pre.entries@[i] == self.entries@[i]);
                    assert(pre.entries@[j] == self.entries@[j]);
                } else {
                    if self.entries@[i].key == k && self.entries@[i].unit == u {
                        assert(pre.entry_matches(i, k, u));
                        assert(pre.has_cached(k, u));
                        assert(false);
                    }
                }
            }
            self.lemma_cached_value(n, k, u);
            assert forall|k2: AnalysisKey, u2: usize|
                !(k2 == k && u2 == u) implies self.cached_at(k2, u2) == pre.cached_at(
                k2,
                u2,
            ) by {
                if pre.has_cached(k2, u2) {
                    let i = choose|i: int| pre.entry_matches(i, k2, u2);
                    assert(self.entries@[i] == pre.entries@[i]);
                    assert(self.entry_matches(i, k2, u2));
                    self.lemma_cached_value(i, k2, u2);
                    pre.lemma_cached_value(i, k2, u2);
                } else {
                    if self.has_cached(k2, u2) {
                        let i = choose|i: int| self.entry_matches(i, k2, u2);
                        if i < n {
                            assert(pre.entry_matches(i, k2, u2));
                            assert(false);
                        } else {
                            assert(false);
                        }
                    }
                }
            }
            assert forall|i: int|
                0 <= i < self.entries@.len() implies self.registered().contains(
                #[trigger] self.entries@[i].key,
            ) by {
                if i < n {
                    assert(pre.registered().contains(pre.entries@[i].key));
                } else {
                    assert(pre.computing().contains((k, u)));
                    assert(pre.registered().contains(k));
                }
            }
            assert forall|p: (AnalysisKey, usize)| #[trigger]
                self.computing().contains(p) implies self.registered().contains(p.0)
                && !self.has_cached(p.0, p.1) by {
                assert(pre.computing().contains(p));
                assert(p != (k, u));
                assert(!pre.has_cached(p.0, p.1));
                if self.has_cached(p.0, p.1) {
                    let i = choose|i: int| self.entry_matches(i, p.0, p.1);
                    if i < n {
                        assert(pre.entry_matches(i, p.0, p.1));
                        assert(false);
                    } else {
                        assert(p.0 == k && p.1 == u);
                        assert(false);
                    }
                }
            }
        }
    }

    /// Drops every cached result for the unit `u`, as the host does
    /// after a pass reports that it preserved nothing on that unit.
    /// Registrations, in-flight computations and the log are untouched.
    pub fn invalidate_unit(&mut self, u: usize)
        requires
            old(self).wf(),
        ensures
            final(self).wf(),
            final(self).registered() == old(self).registered(),
            final(self).computing() == old(self).computing(),
            final(self).history() == old(self).history(),
            forall|k: AnalysisKey| final(self).cached_at(k, u) is None,
            forall|k: AnalysisKey, u2: usize|
                u2 != u ==> final(self).cached_at(k, u2) == old(self).cached_at(k, u2),
    {
        let ghost pre = *old(self);
        let mut kept: Vec<CacheEntry<V>> = Vec::new();
        let mut i: usize = 0;
        while i < self.entries.len()
            invariant
                i <= self.entries@.len(),
                *self == pre,
                pre.wf(),
                forall|j: int| 0 <= j < kept@.len() ==> #[trigger] kept@[j].unit != u,
                forall|j: int|
                    0 <= j < kept@.len() ==> Self::drawn_from(
                        pre.entries@,
                        #[trigger] kept@[j],
                        i as int,
                    ),
                forall|m: int|
                    0 <= m < i && pre.entries@[m].unit != u ==> kept@.contains(
                        #[trigger] pre.entries@[m],
                    ),
                forall|j1: int, j2: int| #![trigger kept@[j1], kept@[j2]]
                    0 <= j1 < j2 < kept@.len() ==> !(kept@[j1].key == kept@[j2].key
                        && kept@[j1].unit == kept@[j2].unit),
            decreases self.entries@.len() - i,
        {
            let e = self.entries[i];
            let ghost prev = kept@;
            if e.unit != u {
                proof {
                    // pushing preserves pairwise distinctness: a kept
                    // element equal in (key, unit) to entries[i] came
                    // from an earlier index, contradicting wf
                    assert forall|j: int|
                        0 <= j < prev.len() implies !(prev[j].key == e.key && prev[j].unit
                        == e.unit) by {
                        let m = Self::lemma_drawn_from_index(pre.entries@, prev[j], i as int);
                        if prev[j].key == e.key && prev[j].unit == e.unit {
                            assert(pre.entries@[m].key == pre.entries@[i as int].key
                                && pre.entries@[m].unit == pre.entries@[i as int].unit);
                            assert(false);
                        }
                    }
                }
                kept.push(e);
                proof {
                    let last = prev.len() as int;
                    assert(kept@[last] == pre.entries@[i as int]);
                    assert forall|j: int|
                        0 <= j < kept@.len() implies Self::drawn_from(
                        pre.entries@,
                        #[trigger] kept@[j],
                        i + 1,
                    ) by {
                        if j < last {
                            assert(kept@[j] == prev[j]);
                            let m = Self::lemma_drawn_from_index(pre.entries@, prev[j], i as int);
                            Self::lemma_drawn_from_intro(pre.entries@, m, i + 1);
                        } else {
                            Self::lemma_drawn_from_intro(pre.entries@, i as int, i + 1);
                        }
                    }
                    assert forall|m: int|
                        0 <= m < i + 1 && pre.entries@[m].unit != u implies kept@.contains(
                        #[trigger] pre.entries@[m],
                    ) by {
                        if m < i {
                            let j = prev.lemma_contains_to_index(pre.entries@[m]);
                            assert(kept@[j] == pre.entries@[m]);
                        } else {
                            assert(kept@[last] == pre.entries@[m]);
                        }
                    }
                }
            } else {
                proof {
                    assert forall|j: int|
                        0 <= j < kept@.len() implies Self::drawn_from(
                        pre.entries@,
                        #[trigger] kept@[j],
                        i + 1,
                    ) by {
                        let m = Self::lemma_drawn_from_index(pre.entries@, kept@[j], i as int);
                        Self::lemma_drawn_from_intro(pre.entries@, m, i + 1);
                    }
                }
            }
            i = i + 1;
        }
        self.entries = kept;
        proof {
            let n = pre.entries@.len() as int;
            assert(self.entries@ == kept@);
            assert(self.registered() =~= pre.registered());
            assert(self.computing() =~= pre.computing());
            // nothing for unit u is cached any more
            assert forall|k: AnalysisKey| self.cached_at(k, u) is None by {
                if self.has_cached(k, u) {
                    let j = choose|j: int| self.entry_matches(j, k, u);
                    assert(kept@[j].unit != u);
                    assert(false);
                }
            }
            // other units keep their results
            assert forall|k: AnalysisKey, u2: usize|
                u2 != u implies self.cached_at(k, u2) == pre.cached_at(k, u2) by {
                if pre.has_cached(k, u2) {
                    let m = choose|m: int| pre.entry_matches(m, k, u2);
                    assert(kept@.contains(pre.entries@[m]));
                    let j = kept@.lemma_contains_to_index(pre.entries@[m]);
                    assert(self.entry_matches(j, k, u2));
                    self.lemma_cached_value(j, k, u2);
                    pre.lemma_cached_value(m, k, u2);
                } else {
                    if self.has_cached(k, u2) {
                        let j = choose|j: int| self.entry_matches(j, k, u2);
                        assert(kept@[j] == self.entries@[j]);
                        let m = Self::lemma_drawn_from_index(pre.entries@, kept@[j], n);
                        assert(pre.entry_matches(m, k, u2));
                        assert(false);
                    }
                }
            }
            // entry keys stay registered, computing pairs stay uncached
            assert forall|i2: int|
                0 <= i2 < self.entries@.len() implies self.registered().contains(
                #[trigger] self.entries@[i2].key,
            ) by {
                assert(kept@[i2] == self.entries@[i2]);
                let m = Self::lemma_drawn_from_index(pre.entries@, kept@[i2], n);
                assert(pre.registered().contains(pre.entries@[m].key));
            }
            assert forall|p: (AnalysisKey, usize)| #[trigger]
                self.computing().contains(p) implies self.registered().contains(p.0)
                && !self.has_cached(p.0, p.1) by {
                assert(pre.computing().contains(p));
                if self.has_cached(p.0, p.1) {
                    let j = choose|j: int| self.entry_matches(j, p.0, p.1);
                    assert(kept@[j] == self.entries@[j]);
                    let m = Self::lemma_drawn_from_index(pre.entries@, kept@[j], n);
                    assert(pre.entry_matches(m, p.0, p.1));
                    assert(false);
                }
            }
        }
    }
}

} // verus!
