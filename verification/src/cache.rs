//! The bounded least-recently-used cache of resolved plugin handlers.
//!
//! The cache maps a plugin id to the handler obtained by resolving the
//! plugin's exported symbol, so that repeated invocations skip the symbol
//! lookup.  Its capacity is fixed at construction; insertion and every hit
//! refresh recency, and inserting a fresh id into a full cache evicts the
//! least recently used entry.  The handler type is a parameter: the host
//! binary stores its resolved function values, the cache only orders them.
//!
//! The model is a sequence of `(id, handler)` pairs with pairwise distinct
//! ids, most recently used first.

use vstd::prelude::*;

use crate::strings::str_eq;

verus! {

/// Pairwise distinct ids.
pub open spec fn unique_keys<F>(s: Seq<(Seq<char>, F)>) -> bool {
    forall|i: int, j: int|
        0 <= i < s.len() && 0 <= j < s.len() && i != j ==> (#[trigger] s[i]).0 != (
        #[trigger] s[j]).0
}

/// Whether some entry carries the id `k`.
pub open spec fn cache_has<F>(s: Seq<(Seq<char>, F)>, k: Seq<char>) -> bool {
    exists|i: int| 0 <= i < s.len() && (#[trigger] s[i]).0 == k
}

/// The position of the first entry carrying id `k`, or -1.
pub open spec fn find_idx<F>(s: Seq<(Seq<char>, F)>, k: Seq<char>) -> int
    decreases s.len(),
{
    if s.len() == 0 {
        -1
    } else if s[0].0 == k {
        0
    } else {
        let r = find_idx(s.subrange(1, s.len() as int), k);
        if r < 0 {
            -1
        } else {
            r + 1
        }
    }
}

/// What a hit on `k` leaves behind: the entry moved to the front.
pub open spec fn spec_promote<F>(s: Seq<(Seq<char>, F)>, k: Seq<char>) -> Seq<(Seq<char>, F)> {
    let i = find_idx(s, k);
    if i < 0 {
        s
    } else {
        seq![s[i]] + s.remove(i)
    }
}

/// What a put of `(k, f)` into a cache of capacity `cap` leaves behind.
pub open spec fn spec_put<F>(s: Seq<(Seq<char>, F)>, cap: nat, k: Seq<char>, f: F) -> Seq<
    (Seq<char>, F),
> {
    let i = find_idx(s, k);
    if i >= 0 {
        seq![(k, f)] + s.remove(i)
    } else if s.len() < cap {
        seq![(k, f)] + s
    } else {
        seq![(k, f)] + s.drop_last()
    }
}

/// What evicting `k` leaves behind.
pub open spec fn spec_evict<F>(s: Seq<(Seq<char>, F)>, k: Seq<char>) -> Seq<(Seq<char>, F)> {
    let i = find_idx(s, k);
    if i < 0 {
        s
    } else {
        s.remove(i)
    }
}

/// `find_idx` finds the first entry carrying `k`, and -1 exactly when no
/// entry carries `k`.
pub proof fn lemma_find_idx<F>(s: Seq<(Seq<char>, F)>, k: Seq<char>)
    ensures
        find_idx(s, k) >= 0 ==> 0 <= find_idx(s, k) < s.len() && s[find_idx(s, k)].0 == k,
        find_idx(s, k) < 0 ==> forall|i: int| 0 <= i < s.len() ==> (#[trigger] s[i]).0 != k,
        find_idx(s, k) >= 0 ==> forall|i: int|
            0 <= i < find_idx(s, k) ==> (#[trigger] s[i]).0 != k,
    decreases s.len(),
{
    if s.len() > 0 && s[0].0 != k {
        let tail = s.subrange(1, s.len() as int);
        lemma_find_idx(tail, k);
        assert forall|i: int| 1 <= i < s.len() implies s[i] == tail[i - 1] by {}
    }
}

/// A first index below `i` would contradict `forall j < i` distinctness, so
/// an exec scan that stops at `i` computes `find_idx`.
proof fn lemma_find_idx_at<F>(s: Seq<(Seq<char>, F)>, k: Seq<char>, i: int)
    requires
        0 <= i < s.len(),
        s[i].0 == k,
        forall|j: int| 0 <= j < i ==> (#[trigger] s[j]).0 != k,
    ensures
        find_idx(s, k) == i,
    decreases s.len(),
{
    if i > 0 {
        let tail = s.subrange(1, s.len() as int);
        assert forall|j: int| 0 <= j < i - 1 implies (#[trigger] tail[j]).0 != k by {
            assert(tail[j] == s[j + 1]);
        }
        assert(tail[i - 1] == s[i]);
        lemma_find_idx_at(tail, k, i - 1);
    }
}

/// The bounded LRU cache of resolved handlers.
pub struct HandlerCache<F> {
    entries: Vec<(String, F)>,
    capacity: usize,
}

impl<F> View for HandlerCache<F> {
    type V = Seq<(Seq<char>, F)>;

    closed spec fn view(&self) -> Seq<(Seq<char>, F)> {
        self.entries@.map_values(|p: (String, F)| (p.0@, p.1))
    }
}

impl<F: Copy> HandlerCache<F> {
    /// The capacity fixed at construction.
    pub closed spec fn spec_capacity(&self) -> nat {
        self.capacity as nat
    }

    /// The cache's invariant: distinct ids, never more entries than the
    /// capacity, and a positive capacity.
    pub open spec fn wf(&self) -> bool {
        &&& unique_keys(self@)
        &&& self@.len() <= self.spec_capacity()
        &&& 1 <= self.spec_capacity()
    }

    pub fn new(capacity: usize) -> (r: Self)
        requires
            1 <= capacity,
        ensures
            r.wf(),
            r@ == Seq::<(Seq<char>, F)>::empty(),
            r.spec_capacity() == capacity,
    {
        let r = HandlerCache { entries: Vec::new(), capacity };
        proof {
            assert(r@ =~= Seq::<(Seq<char>, F)>::empty());
        }
        r
    }

    pub fn capacity(&self) -> (r: usize)
        ensures
            r == self.spec_capacity(),
    {
        self.capacity
    }

    pub fn len(&self) -> (r: usize)
        ensures
            r == self@.len(),
    {
        self.entries.len()
    }

    /// The position of the entry for `id`, if present.
    fn index_of(&self, id: &str) -> (r: Option<usize>)
        ensures
            match r {
                Some(i) => find_idx(self@, id@) == i as int && i < self@.len() && self@[i as int].0
                    == id@,
                None => find_idx(self@, id@) < 0,
            },
    {
        let n = self.entries.len();
        let mut i: usize = 0;
        while i < n
            invariant
                n == self.entries@.len(),
                self@.len() == n,
                i <= n,
                forall|j: int| 0 <= j < i ==> (#[trigger] self@[j]).0 != id@,
            decreases n - i,
        {
            if str_eq(self.entries[i].0.as_str(), id) {
                proof {
                    lemma_find_idx_at(self@, id@, i as int);
                }
                return Some(i);
            }
            i = i + 1;
        }
        proof {
            lemma_find_idx(self@, id@);
            if find_idx(self@, id@) >= 0 {
                assert(self@[find_idx(self@, id@)].0 == id@);
            }
        }
        None
    }

    /// Looks up the handler for `id`; a hit refreshes the entry's recency.
    pub fn get(&mut self, id: &str) -> (r: Option<F>)
        requires
            old(self).wf(),
        ensures
            final(self).wf(),
            final(self).spec_capacity() == old(self).spec_capacity(),
            r is Some <==> cache_has(old(self)@, id@),
            match r {
                Some(f) => {
                    let i = find_idx(old(self)@, id@);
                    &&& 0 <= i < old(self)@.len()
                    &&& old(self)@[i] == (id@, f)
                    &&& final(self)@ == spec_promote(old(self)@, id@)
                },
                None => final(self)@ == old(self)@,
            },
    {
        proof {
            lemma_find_idx(self@, id@);
        }
        match self.index_of(id) {
            Some(i) => {
                let entry = self.entries.remove(i);
                let f = entry.1;
                self.entries.insert(0, entry);
                proof {
                    assert(self@ =~= seq![old(self)@[i as int]] + old(self)@.remove(i as int));
                    lemma_promote_unique(old(self)@, id@);
                }
                Some(f)
            }
            None => {
                None
            }
        }
    }

    /// Stores the handler for `id` at the front.  A present id is replaced
    /// and refreshed; a fresh id entering a full cache evicts the least
    /// recently used entry.
    pub fn put(&mut self, id: &str, f: F)
        requires
            old(self).wf(),
        ensures
            final(self).wf(),
            final(self).spec_capacity() == old(self).spec_capacity(),
            final(self)@ == spec_put(old(self)@, old(self).spec_capacity(), id@, f),
    {
        proof {
            lemma_find_idx(self@, id@);
        }
        match self.index_of(id) {
            Some(i) => {
                let _replaced = self.entries.remove(i);
                self.entries.insert(0, (id.to_owned(), f));
                proof {
                    assert(self@ =~= seq![(id@, f)] + old(self)@.remove(find_idx(old(self)@, id@)));
                    lemma_put_unique(old(self)@, old(self).spec_capacity(), id@, f);
                }
            }
            None => {
                if self.entries.len() >= self.capacity {
                    let _evicted = self.entries.pop();
                    proof {
                        assert(self@ =~= old(self)@.drop_last());
                    }
                }
                let ghost mid = self@;
                self.entries.insert(0, (id.to_owned(), f));
                proof {
                    assert(self@ =~= seq![(id@, f)] + mid);
                    lemma_put_unique(old(self)@, old(self).spec_capacity(), id@, f);
                }
            }
        }
    }

    /// Drops the entry for `id`, if present, and returns its handler.
    pub fn evict(&mut self, id: &str) -> (r: Option<F>)
        requires
            old(self).wf(),
        ensures
            final(self).wf(),
            final(self).spec_capacity() == old(self).spec_capacity(),
            r is Some <==> cache_has(old(self)@, id@),
            final(self)@ == spec_evict(old(self)@, id@),
            !cache_has(final(self)@, id@),
    {
        proof {
            lemma_find_idx(self@, id@);
        }
        match self.index_of(id) {
            Some(i) => {
                let entry = self.entries.remove(i);
                proof {
                    assert(self@ =~= old(self)@.remove(i as int));
                    lemma_evict_unique(old(self)@, id@);
                }
                Some(entry.1)
            }
            None => {
                proof {
                    assert(self@ =~= spec_evict(old(self)@, id@));
                }
                None
            }
        }
    }
}

/// Promotion keeps ids distinct and keeps the length.
proof fn lemma_promote_unique<F>(s: Seq<(Seq<char>, F)>, k: Seq<char>)
    requires
        unique_keys(s),
        find_idx(s, k) >= 0,
    ensures
        unique_keys(spec_promote(s, k)),
        spec_promote(s, k).len() == s.len(),
{
    lemma_find_idx(s, k);
    let i = find_idx(s, k);
    let t = spec_promote(s, k);
    assert forall|p: int, q: int|
        0 <= p < t.len() && 0 <= q < t.len() && p != q implies (#[trigger] t[p]).0 != (
    #[trigger] t[q]).0 by {
        assert(t[p] == orig_of(s, i, p));
        assert(t[q] == orig_of(s, i, q));
    }
}

/// Which original entry sits at position `p` after entry `i` moved to front.
spec fn orig_of<F>(s: Seq<(Seq<char>, F)>, i: int, p: int) -> (Seq<char>, F) {
    if p == 0 {
        s[i]
    } else if p <= i {
        s[p - 1]
    } else {
        s[p]
    }
}

/// A put keeps ids distinct and respects the capacity.
proof fn lemma_put_unique<F>(s: Seq<(Seq<char>, F)>, cap: nat, k: Seq<char>, f: F)
    requires
        unique_keys(s),
        s.len() <= cap,
        1 <= cap,
    ensures
        unique_keys(spec_put(s, cap, k, f)),
        spec_put(s, cap, k, f).len() <= cap,
{
    lemma_find_idx(s, k);
    let i = find_idx(s, k);
    let t = spec_put(s, cap, k, f);
    if i >= 0 {
        assert forall|p: int, q: int|
            0 <= p < t.len() && 0 <= q < t.len() && p != q implies (#[trigger] t[p]).0 != (
        #[trigger] t[q]).0 by {
            assert(t[p] == if p == 0 { (k, f) } else { orig_of(s, i, p) });
            assert(t[q] == if q == 0 { (k, f) } else { orig_of(s, i, q) });
        }
    } else {
        assert forall|p: int, q: int|
            0 <= p < t.len() && 0 <= q < t.len() && p != q implies (#[trigger] t[p]).0 != (
        #[trigger] t[q]).0 by {
            assert(p == 0 || t[p] == s[p - 1]);
            assert(q == 0 || t[q] == s[q - 1]);
        }
    }
}

/// Eviction keeps ids distinct and removes the id.
proof fn lemma_evict_unique<F>(s: Seq<(Seq<char>, F)>, k: Seq<char>)
    requires
        unique_keys(s),
    ensures
        unique_keys(spec_evict(s, k)),
        !cache_has(spec_evict(s, k), k),
{
    lemma_find_idx(s, k);
    let i = find_idx(s, k);
    let t = spec_evict(s, k);
    if i >= 0 {
        assert forall|p: int, q: int|
            0 <= p < t.len() && 0 <= q < t.len() && p != q implies (#[trigger] t[p]).0 != (
        #[trigger] t[q]).0 by {
            assert(t[p] == if p < i { s[p] } else { s[p + 1] });
            assert(t[q] == if q < i { s[q] } else { s[q + 1] });
        }
        assert forall|p: int| 0 <= p < t.len() implies (#[trigger] t[p]).0 != k by {
            assert(t[p] == if p < i { s[p] } else { s[p + 1] });
        }
    }
}

/// Law: the cache is bounded by its capacity, and when a fresh id enters a
/// full cache, the evicted entry is exactly the least recently used one:
/// every other entry survives one position further back, and the evicted id
/// is no longer present.
pub proof fn lemma_cache_bound<F>(s: Seq<(Seq<char>, F)>, cap: nat, k: Seq<char>, f: F)
    requires
        unique_keys(s),
        s.len() <= cap,
        1 <= cap,
    ensures
        spec_put(s, cap, k, f).len() <= cap,
        !cache_has(s, k) && s.len() == cap ==> spec_put(s, cap, k, f)[0] == (k, f),
        !cache_has(s, k) && s.len() == cap ==> forall|j: int|
            0 <= j < cap - 1 ==> #[trigger] spec_put(s, cap, k, f)[j + 1] == s[j],
        !cache_has(s, k) && s.len() == cap ==> !cache_has(spec_put(s, cap, k, f), s.last().0),
{
    lemma_find_idx(s, k);
    lemma_put_unique(s, cap, k, f);
    let i = find_idx(s, k);
    if i >= 0 {
        assert(cache_has(s, k));
    }
    if !cache_has(s, k) && s.len() == cap {
        let t = spec_put(s, cap, k, f);
        assert forall|j: int| 0 <= j < cap - 1 implies #[trigger] t[j + 1] == s[j] by {
            assert(t[j + 1] == s.drop_last()[j]);
        }
        assert forall|p: int| 0 <= p < t.len() implies (#[trigger] t[p]).0 != s.last().0 by {
            if p == 0 {
                assert(t[0].0 == k);
                assert(s.last().0 != k);
            } else {
                assert(t[p] == s[p - 1]);
                assert(s[p - 1].0 != s[s.len() - 1].0);
            }
        }
    }
}

/// A whole batch of puts, applied in order.
pub open spec fn iter_put<F>(
    s: Seq<(Seq<char>, F)>,
    cap: nat,
    batch: Seq<(Seq<char>, F)>,
) -> Seq<(Seq<char>, F)>
    decreases batch.len(),
{
    if batch.len() == 0 {
        s
    } else {
        spec_put(iter_put(s, cap, batch.drop_last()), cap, batch.last().0, batch.last().1)
    }
}

/// Law: however many handlers are stored — in particular after more
/// distinct ids than the capacity — the cache never holds more than
/// `cap` entries, and its ids stay pairwise distinct.
pub proof fn lemma_cache_bound_batch<F>(
    s: Seq<(Seq<char>, F)>,
    cap: nat,
    batch: Seq<(Seq<char>, F)>,
)
    requires
        unique_keys(s),
        s.len() <= cap,
        1 <= cap,
    ensures
        iter_put(s, cap, batch).len() <= cap,
        unique_keys(iter_put(s, cap, batch)),
    decreases batch.len(),
{
    if batch.len() > 0 {
        lemma_cache_bound_batch(s, cap, batch.drop_last());
        lemma_put_unique(iter_put(s, cap, batch.drop_last()), cap, batch.last().0, batch.last().1);
    }
}

} // verus!
