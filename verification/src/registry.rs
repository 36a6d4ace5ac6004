//! The registry of loaded plugins: the source of truth mapping each derived
//! plugin id to its manifest, its published resource and the owned native
//! library handle.
//!
//! The registry owns the handles: an entry's handle is dropped exactly when
//! the entry is replaced or removed.  The handle type is a parameter, because
//! opening a native library is the host binary's job; the registry treats the
//! handle as an opaque owned value.

use vstd::prelude::*;

use crate::manifest::PluginInfoWrapper;
use crate::manifest::PluginInfoWrapperV;
use crate::strings::str_eq;

verus! {

/// A loaded plugin: its information paired with the owned library handle.
pub struct PluginHandle<H> {
    pub info: PluginInfoWrapper,
    pub lib: H,
}

/// Mathematical model of a [`PluginHandle`].
pub struct PluginHandleV<H> {
    pub info: PluginInfoWrapperV,
    pub lib: H,
}

impl<H> View for PluginHandle<H> {
    type V = PluginHandleV<H>;

    open spec fn view(&self) -> PluginHandleV<H> {
        PluginHandleV { info: self.info@, lib: self.lib }
    }
}

impl<H> PluginHandle<H> {
    pub fn new(info: PluginInfoWrapper, lib: H) -> (r: Self)
        ensures
            r@.info == info@,
            r@.lib == lib,
    {
        PluginHandle { info, lib }
    }

    /// The registered information of this plugin.
    pub fn info(&self) -> (r: &PluginInfoWrapper)
        ensures
            r@ == self@.info,
    {
        &self.info
    }

    /// The owned native library handle.
    pub fn lib(&self) -> (r: &H)
        ensures
            *r == self@.lib,
    {
        &self.lib
    }
}

/// No two entries carry the same id.
pub open spec fn unique_ids<H>(s: Seq<PluginHandle<H>>) -> bool {
    forall|i: int, j: int|
        0 <= i < s.len() && 0 <= j < s.len() && i != j ==> (#[trigger] s[i].info.id@) != (
        #[trigger] s[j].info.id@)
}

/// The map denoted by a sequence of entries; on duplicate ids the later
/// entry wins.
pub open spec fn as_map<H>(s: Seq<PluginHandle<H>>) -> Map<Seq<char>, PluginHandleV<H>>
    decreases s.len(),
{
    if s.len() == 0 {
        Map::empty()
    } else {
        as_map(s.drop_last()).insert(s.last().info.id@, s.last()@)
    }
}

proof fn lemma_as_map_absent<H>(s: Seq<PluginHandle<H>>, k: Seq<char>)
    requires
        forall|i: int| 0 <= i < s.len() ==> (#[trigger] s[i].info.id@) != k,
    ensures
        !as_map(s).contains_key(k),
    decreases s.len(),
{
    if s.len() > 0 {
        lemma_as_map_absent(s.drop_last(), k);
    }
}

proof fn lemma_as_map_index<H>(s: Seq<PluginHandle<H>>, i: int)
    requires
        unique_ids(s),
        0 <= i < s.len(),
    ensures
        as_map(s).contains_key(s[i].info.id@),
        as_map(s)[s[i].info.id@] == s[i]@,
    decreases s.len(),
{
    if i < s.len() - 1 {
        assert(unique_ids(s.drop_last()));
        lemma_as_map_index(s.drop_last(), i);
        assert(s.drop_last()[i] == s[i]);
    }
}

proof fn lemma_as_map_len<H>(s: Seq<PluginHandle<H>>)
    requires
        unique_ids(s),
    ensures
        as_map(s).dom().finite(),
        as_map(s).dom().len() == s.len(),
    decreases s.len(),
{
    if s.len() > 0 {
        assert(unique_ids(s.drop_last()));
        lemma_as_map_len(s.drop_last());
        lemma_as_map_absent(s.drop_last(), s.last().info.id@);
    }
}

proof fn lemma_as_map_push<H>(s: Seq<PluginHandle<H>>, h: PluginHandle<H>)
    ensures
        as_map(s.push(h)) == as_map(s).insert(h.info.id@, h@),
{
    assert(s.push(h).drop_last() =~= s);
    assert(s.push(h).last() == h);
}

proof fn lemma_remove_keeps_unique<H>(s: Seq<PluginHandle<H>>, i: int)
    requires
        unique_ids(s),
        0 <= i < s.len(),
    ensures
        unique_ids(s.remove(i)),
        forall|j: int|
            0 <= j < s.remove(i).len() ==> (#[trigger] s.remove(i)[j].info.id@) != s[i].info.id@,
{
    assert forall|j: int|
        0 <= j < s.remove(i).len() implies (#[trigger] s.remove(i)[j].info.id@)
        != s[i].info.id@ by {
        if j < i {
            assert(s.remove(i)[j] == s[j]);
        } else {
            assert(s.remove(i)[j] == s[j + 1]);
        }
    }
    assert forall|p: int, q: int|
        0 <= p < s.remove(i).len() && 0 <= q < s.remove(i).len() && p != q implies (
    #[trigger] s.remove(i)[p].info.id@) != (#[trigger] s.remove(i)[q].info.id@) by {
        let p0: int = if p < i { p } else { p + 1 };
        let q0: int = if q < i { q } else { q + 1 };
        assert(s.remove(i)[p] == s[p0]);
        assert(s.remove(i)[q] == s[q0]);
    }
}

proof fn lemma_as_map_remove<H>(s: Seq<PluginHandle<H>>, i: int)
    requires
        unique_ids(s),
        0 <= i < s.len(),
    ensures
        unique_ids(s.remove(i)),
        as_map(s.remove(i)) == as_map(s).remove(s[i].info.id@),
    decreases s.len(),
{
    let k = s[i].info.id@;
    if i == s.len() - 1 {
        assert(s.remove(i) =~= s.drop_last());
        lemma_as_map_absent(s.drop_last(), k);
        assert(as_map(s.remove(i)) =~= as_map(s).remove(k));
    } else {
        assert(unique_ids(s.drop_last()));
        lemma_as_map_remove(s.drop_last(), i);
        assert(s.remove(i).drop_last() =~= s.drop_last().remove(i));
        assert(s.remove(i).last() == s.last());
        // Removing key `k` commutes with inserting the distinct last id.
        assert(as_map(s.remove(i)) =~= as_map(s).remove(k));
    }
}

/// The registry: a finite map from plugin id to loaded entry, backed by a
/// vector with pairwise distinct ids.
pub struct Registry<H> {
    entries: Vec<PluginHandle<H>>,
}

impl<H> View for Registry<H> {
    type V = Map<Seq<char>, PluginHandleV<H>>;

    closed spec fn view(&self) -> Map<Seq<char>, PluginHandleV<H>> {
        as_map(self.entries@)
    }
}

impl<H> Registry<H> {
    /// The registry's internal well-formedness: ids are pairwise distinct.
    pub closed spec fn wf(&self) -> bool {
        unique_ids(self.entries@)
    }

    pub fn new() -> (r: Self)
        ensures
            r.wf(),
            r@ == Map::<Seq<char>, PluginHandleV<H>>::empty(),
    {
        Registry { entries: Vec::new() }
    }

    /// The position of the entry registered under `id`, if any.
    fn index_of(&self, id: &str) -> (r: Option<usize>)
        ensures
            match r {
                Some(i) => i < self.entries@.len() && self.entries@[i as int].info.id@ == id@,
                None => forall|i: int|
                    0 <= i < self.entries@.len() ==> (#[trigger] self.entries@[i].info.id@) != id@,
            },
    {
        let n = self.entries.len();
        let mut i: usize = 0;
        while i < n
            invariant
                n == self.entries@.len(),
                i <= n,
                forall|k: int|
                    0 <= k < i ==> (#[trigger] self.entries@[k].info.id@) != id@,
            decreases n - i,
        {
            if str_eq(self.entries[i].info.id.as_str(), id) {
                return Some(i);
            }
            i = i + 1;
        }
        None
    }

    /// Whether a plugin is registered under `id`.
    pub fn contains(&self, id: &str) -> (r: bool)
        requires
            self.wf(),
        ensures
            r == self@.contains_key(id@),
    {
        match self.index_of(id) {
            Some(i) => {
                proof {
                    lemma_as_map_index(self.entries@, i as int);
                }
                true
            }
            None => {
                proof {
                    lemma_as_map_absent(self.entries@, id@);
                }
                false
            }
        }
    }

    /// The number of registered plugins.
    pub fn len(&self) -> (r: usize)
        requires
            self.wf(),
        ensures
            r == self@.dom().len(),
    {
        proof {
            lemma_as_map_len(self.entries@);
        }
        self.entries.len()
    }

    /// Registers `h` under its id, replacing — and thereby dropping, which
    /// unloads the replaced entry's library — any entry already registered
    /// under the same id.
    pub fn insert_entry(&mut self, h: PluginHandle<H>)
        requires
            old(self).wf(),
        ensures
            final(self).wf(),
            final(self)@ == old(self)@.insert(h@.info.id, h@),
    {
        let ghost hv = h@;
        let ghost hsnap = h;
        let ghost k = h@.info.id;
        let ghost before = self.entries@;
        match self.index_of(h.info.id.as_str()) {
            Some(i) => {
                let _old_entry = self.entries.remove(i);
                proof {
                    lemma_as_map_remove(before, i as int);
                    lemma_remove_keeps_unique(before, i as int);
                }
                let ghost removed = self.entries@;
                self.entries.push(h);
                proof {
                    lemma_as_map_push(removed, hsnap);
                    assert forall|p: int, q: int|
                        0 <= p < self.entries@.len() && 0 <= q < self.entries@.len() && p != q
                        implies (#[trigger] self.entries@[p].info.id@) != (
                    #[trigger] self.entries@[q].info.id@) by {
                        if p < removed.len() && q < removed.len() {
                            assert(self.entries@[p] == removed[p]);
                            assert(self.entries@[q] == removed[q]);
                        } else if p < removed.len() {
                            assert(self.entries@[p] == removed[p]);
                            assert(self.entries@[q] == hsnap);
                        } else {
                            assert(self.entries@[p] == hsnap);
                            assert(self.entries@[q] == removed[q]);
                        }
                    }
                    assert(as_map(self.entries@) =~= as_map(before).insert(k, hv));
                }
            }
            None => {
                self.entries.push(h);
                proof {
                    lemma_as_map_push(before, hsnap);
                    assert forall|p: int, q: int|
                        0 <= p < self.entries@.len() && 0 <= q < self.entries@.len() && p != q
                        implies (#[trigger] self.entries@[p].info.id@) != (
                    #[trigger] self.entries@[q].info.id@) by {
                        if p < before.len() && q < before.len() {
                            assert(self.entries@[p] == before[p]);
                            assert(self.entries@[q] == before[q]);
                        } else if p < before.len() {
                            assert(self.entries@[p] == before[p]);
                            assert(self.entries@[q] == hsnap);
                        } else {
                            assert(self.entries@[p] == hsnap);
                            assert(self.entries@[q] == before[q]);
                        }
                    }
                }
            }
        }
    }

    /// Removes and returns the entry registered under `id`; the caller drops
    /// the returned handle, which unloads the library.
    pub fn remove_entry(&mut self, id: &str) -> (r: Option<PluginHandle<H>>)
        requires
            old(self).wf(),
        ensures
            final(self).wf(),
            match r {
                Some(h) => old(self)@.contains_key(id@) && h@ == old(self)@[id@] && final(self)@
                    == old(self)@.remove(id@),
                None => !old(self)@.contains_key(id@) && final(self)@ == old(self)@,
            },
    {
        match self.index_of(id) {
            Some(i) => {
                proof {
                    lemma_as_map_index(self.entries@, i as int);
                    lemma_as_map_remove(self.entries@, i as int);
                    lemma_remove_keeps_unique(self.entries@, i as int);
                }
                Some(self.entries.remove(i))
            }
            None => {
                proof {
                    lemma_as_map_absent(self.entries@, id@);
                }
                None
            }
        }
    }

    /// A copy of the information registered under `id`, if any.
    pub fn get_info(&self, id: &str) -> (r: Option<PluginInfoWrapper>)
        requires
            self.wf(),
        ensures
            match r {
                Some(w) => self@.contains_key(id@) && w@ == self@[id@].info,
                None => !self@.contains_key(id@),
            },
    {
        match self.index_of(id) {
            Some(i) => {
                proof {
                    lemma_as_map_index(self.entries@, i as int);
                }
                Some(self.entries[i].info.clone())
            }
            None => {
                proof {
                    lemma_as_map_absent(self.entries@, id@);
                }
                None
            }
        }
    }

    /// A borrow of the library handle registered under `id`, if any.
    pub fn lib_of(&self, id: &str) -> (r: Option<&H>)
        requires
            self.wf(),
        ensures
            match r {
                Some(l) => self@.contains_key(id@) && *l == self@[id@].lib,
                None => !self@.contains_key(id@),
            },
    {
        match self.index_of(id) {
            Some(i) => {
                proof {
                    lemma_as_map_index(self.entries@, i as int);
                }
                Some(&self.entries[i].lib)
            }
            None => {
                proof {
                    lemma_as_map_absent(self.entries@, id@);
                }
                None
            }
        }
    }

    /// A copy of every registered plugin's information, in registry order.
    pub fn infos(&self) -> (r: Vec<PluginInfoWrapper>)
        requires
            self.wf(),
        ensures
            r@.len() == self@.dom().len(),
            forall|i: int|
                0 <= i < r@.len() ==> self@.contains_key(#[trigger] r@[i]@.id) && r@[i]@
                    == self@[r@[i]@.id].info,
            forall|i: int, j: int|
                0 <= i < r@.len() && 0 <= j < r@.len() && i != j ==> (#[trigger] r@[i]@.id) != (
                #[trigger] r@[j]@.id),
    {
        proof {
            lemma_as_map_len(self.entries@);
        }
        let n = self.entries.len();
        let mut out: Vec<PluginInfoWrapper> = Vec::new();
        let mut i: usize = 0;
        while i < n
            invariant
                self.wf(),
                n == self.entries@.len(),
                i <= n,
                out@.len() == i,
                forall|k: int|
                    0 <= k < i ==> (#[trigger] out@[k])@ == self.entries@[k].info@,
                forall|k: int|
                    0 <= k < i ==> self@.contains_key((#[trigger] out@[k])@.id) && out@[k]@
                        == self@[out@[k]@.id].info,
            decreases n - i,
        {
            let w = self.entries[i].info.clone();
            proof {
                lemma_as_map_index(self.entries@, i as int);
            }
            out.push(w);
            i = i + 1;
        }
        out
    }
}

} // verus!
