//! The plugin manager: the registry of loaded plugins, the bounded handler
//! cache, and the invocation state machine, behind one owner.
//!
//! The manager is the sequential core; the host binary wraps it in a lock
//! and keeps every critical section brief and synchronous.  Work only the
//! host can do — walking directories, creating symlinks, opening native
//! libraries, resolving exported symbols, awaiting a handler — happens
//! between calls into the manager, which decides each step and keeps the
//! registry and the cache consistent:
//!
//! * loading: [`PluginManager::plan_load`] derives the id and the publish
//!   plan; the host executes the plan and opens the library; on success —
//!   and only then, so a failed load inserts nothing —
//!   [`PluginManager::commit_load`] replaces or adds the registry entry.
//! * invoking: [`PluginManager::prepare_invoke`] answers not-found, a cached
//!   handler, or an order to resolve; after resolving the host stores the
//!   handler with [`PluginManager::handler_resolved`] and calls it with no
//!   lock held.
//! * removing: [`PluginManager::remove`] evicts the cached handler first and
//!   then drops the registry entry, whose handle unloads the library.

use vstd::prelude::*;

use crate::cache::HandlerCache;
use crate::cache::cache_has;
use crate::cache::find_idx;
use crate::cache::spec_evict;
use crate::cache::spec_promote;
use crate::cache::spec_put;
use crate::cache::unique_keys;
use crate::config::PluginManagerConfig;
use crate::errors::PluginError;
use crate::ids::generate_id;
use crate::ids::spec_generate_id;
use crate::manifest::PluginInfo;
use crate::manifest::PluginInfoWrapper;
use crate::manifest::PluginRes;
use crate::paths::PathKind;
use crate::paths::PublishPlan;
use crate::paths::generate_res_net;
use crate::paths::spec_link_path;
use crate::paths::spec_resolve;
use crate::registry::PluginHandle;
use crate::registry::PluginHandleV;
use crate::registry::Registry;

verus! {

/// The manager's answer to the first step of an invocation.
pub enum InvokeStep<F> {
    /// The id is not registered; the invocation fails with not-found and no
    /// symbol resolution is attempted.
    NotFound,
    /// A cached handler; the host calls it directly.
    Ready(F),
    /// The id is registered but no handler is cached; the host must resolve
    /// the exported symbol from the entry's library and report back.
    Resolve,
}

/// The plugin manager.  `H` is the host's owned library-handle type and `F`
/// its resolved-handler type; the manager treats both as opaque values.
pub struct PluginManager<C: PluginManagerConfig, H, F> {
    /// The host configuration.
    pub config: C,
    registry: Registry<H>,
    fn_caches: HandlerCache<F>,
}

impl<C: PluginManagerConfig, H, F: Copy> PluginManager<C, H, F> {
    /// The registry's contents: derived id to loaded entry.
    pub closed spec fn plugins(&self) -> Map<Seq<char>, PluginHandleV<H>> {
        self.registry@
    }

    /// The handler cache's contents, most recently used first.
    pub closed spec fn handlers(&self) -> Seq<(Seq<char>, F)> {
        self.fn_caches@
    }

    /// The handler cache's capacity.
    pub closed spec fn spec_capacity(&self) -> nat {
        self.fn_caches.spec_capacity()
    }

    /// The host configuration, as a spec value.
    pub closed spec fn spec_config(&self) -> C {
        self.config
    }

    /// The manager's invariant.
    pub closed spec fn wf(&self) -> bool {
        &&& self.registry.wf()
        &&& self.fn_caches.wf()
    }

    /// The handler cache's contents have pairwise distinct ids and never
    /// exceed the capacity.
    pub proof fn lemma_wf_cache(&self)
        requires
            self.wf(),
        ensures
            unique_keys(self.handlers()),
            self.handlers().len() <= self.spec_capacity(),
            1 <= self.spec_capacity(),
    {
    }

    /// A manager with an empty registry and an empty cache whose capacity is
    /// the configured cache size, raised to one if the configuration says
    /// zero.
    pub fn new(config: C) -> (r: Self)
        ensures
            r.wf(),
            r.plugins() == Map::<Seq<char>, PluginHandleV<H>>::empty(),
            r.handlers() == Seq::<(Seq<char>, F)>::empty(),
            r.spec_capacity() == if config.spec_num_cache() == 0 {
                1nat
            } else {
                config.spec_num_cache()
            },
            r.spec_config() == config,
    {
        let mut cap = config.num_cache();
        if cap == 0 {
            cap = 1;
        }
        PluginManager { config, registry: Registry::new(), fn_caches: HandlerCache::new(cap) }
    }

    /// The number of registered plugins.
    pub fn count(&self) -> (r: usize)
        requires
            self.wf(),
        ensures
            r == self.plugins().dom().len(),
    {
        self.registry.len()
    }

    /// A copy of the information registered under `id`, if any.
    pub fn find(&self, id: &str) -> (r: Option<PluginInfoWrapper>)
        requires
            self.wf(),
        ensures
            match r {
                Some(w) => self.plugins().contains_key(id@) && w@ == self.plugins()[id@].info,
                None => !self.plugins().contains_key(id@),
            },
    {
        self.registry.get_info(id)
    }

    /// A copy of every registered plugin's information.
    pub fn get(&self) -> (r: Vec<PluginInfoWrapper>)
        requires
            self.wf(),
        ensures
            r@.len() == self.plugins().dom().len(),
            forall|i: int|
                0 <= i < r@.len() ==> self.plugins().contains_key(#[trigger] r@[i]@.id) && r@[i]@
                    == self.plugins()[r@[i]@.id].info,
    {
        self.registry.infos()
    }

    /// A borrow of the library handle registered under `id`, for the host's
    /// symbol resolution during a cache miss.
    pub fn lib_of(&self, id: &str) -> (r: Option<&H>)
        requires
            self.wf(),
        ensures
            match r {
                Some(l) => self.plugins().contains_key(id@) && *l == self.plugins()[id@].lib,
                None => !self.plugins().contains_key(id@),
            },
    {
        self.registry.lib_of(id)
    }

    /// Derives the id and the publish plan for one discovered manifest.
    /// Nothing is registered yet: the host first executes the plan and opens
    /// the library, and commits only on success, so a failure at any step
    /// leaves the registry untouched.
    pub fn plan_load(&self, parent: &str, info: &PluginInfo, file_kind: PathKind, html_kind: PathKind) -> (r: Result<
        (String, PublishPlan),
        PluginError,
    >)
        ensures
            r is Err <==> file_kind is Other || html_kind is Other,
            r matches Err(e) ==> e is PathValidation,
            r matches Ok(p) ==> {
                &&& p.0@ == spec_generate_id(info@.name)
                &&& p.1.link_path@ == spec_link_path(
                    self.spec_config().spec_symlink_base_dir(),
                    spec_generate_id(info@.name),
                    self.spec_config().spec_web_file_name(),
                )
                &&& p.1.target@ == spec_resolve(parent@, info@.res.html)
                &&& p.1.net@.file == spec_resolve(parent@, info@.res.file)
                &&& p.1.net@.html == p.1.link_path@
            },
    {
        let id = generate_id(info.name.as_str());
        let plan = generate_res_net(&self.config, id.as_str(), parent, info, file_kind, html_kind)?;
        Ok((id, plan))
    }

    /// Registers a successfully loaded plugin: the entry is inserted under
    /// `id`, replacing — and thereby unloading — any entry already
    /// registered under the same id.
    pub fn commit_load(&mut self, id: String, info: PluginInfo, net: PluginRes, lib: H)
        requires
            old(self).wf(),
        ensures
            final(self).wf(),
            final(self).plugins().contains_key(id@),
            final(self).plugins()[id@].info.id == id@,
            final(self).plugins()[id@].info.info == info@,
            final(self).plugins()[id@].info.info_net == Some(net@),
            final(self).plugins()[id@].lib == lib,
            final(self).plugins() == old(self).plugins().insert(
                id@,
                final(self).plugins()[id@],
            ),
            final(self).handlers() == old(self).handlers(),
            final(self).spec_capacity() == old(self).spec_capacity(),
            final(self).spec_config() == old(self).spec_config(),
    {
        let wrapper = PluginInfoWrapper::new(id, info, Some(net));
        let handle = PluginHandle::new(wrapper, lib);
        self.registry.insert_entry(handle);
    }

    /// Removes and unloads the plugin registered under `id`, returning its
    /// declared name.  The cached handler is evicted first, then the entry
    /// is dropped; afterwards neither the registry nor the cache knows the
    /// id, so later invocations fail with not-found.
    pub fn remove(&mut self, id: &str) -> (r: Option<String>)
        requires
            old(self).wf(),
        ensures
            final(self).wf(),
            !final(self).plugins().contains_key(id@),
            !cache_has(final(self).handlers(), id@),
            final(self).handlers() == spec_evict(old(self).handlers(), id@),
            final(self).spec_capacity() == old(self).spec_capacity(),
            final(self).spec_config() == old(self).spec_config(),
            match r {
                Some(name) => old(self).plugins().contains_key(id@) && name@ == old(
                    self,
                ).plugins()[id@].info.info.name && final(self).plugins() == old(
                    self,
                ).plugins().remove(id@),
                None => !old(self).plugins().contains_key(id@) && final(self).plugins() == old(
                    self,
                ).plugins(),
            },
    {
        let _evicted = self.fn_caches.evict(id);
        match self.registry.remove_entry(id) {
            Some(entry) => {
                let name = entry.info().info.name.clone();
                Some(name)
            }
            None => None,
        }
    }

    /// The first step of an invocation: fail with not-found for an
    /// unregistered id without attempting resolution; hand back the cached
    /// handler, refreshed, on a hit; otherwise order the host to resolve the
    /// symbol.  The registry is never changed.
    pub fn prepare_invoke(&mut self, id: &str) -> (r: InvokeStep<F>)
        requires
            old(self).wf(),
        ensures
            final(self).wf(),
            final(self).plugins() == old(self).plugins(),
            final(self).spec_capacity() == old(self).spec_capacity(),
            final(self).spec_config() == old(self).spec_config(),
            r is NotFound <==> !old(self).plugins().contains_key(id@),
            r is NotFound ==> final(self).handlers() == old(self).handlers(),
            r matches InvokeStep::Ready(f) ==> {
                &&& old(self).plugins().contains_key(id@)
                &&& cache_has(old(self).handlers(), id@)
                &&& 0 <= find_idx(old(self).handlers(), id@) < old(self).handlers().len()
                &&& old(self).handlers()[find_idx(old(self).handlers(), id@)] == (id@, f)
                &&& final(self).handlers() == spec_promote(old(self).handlers(), id@)
            },
            r is Resolve ==> {
                &&& old(self).plugins().contains_key(id@)
                &&& !cache_has(old(self).handlers(), id@)
                &&& final(self).handlers() == old(self).handlers()
            },
    {
        if !self.registry.contains(id) {
            return InvokeStep::NotFound;
        }
        match self.fn_caches.get(id) {
            Some(f) => InvokeStep::Ready(f),
            None => InvokeStep::Resolve,
        }
    }

    /// Stores the handler the host resolved for `id`, evicting the least
    /// recently used entry if the cache is full.  The host then calls the
    /// handler itself, outside any lock.
    pub fn handler_resolved(&mut self, id: &str, f: F)
        requires
            old(self).wf(),
        ensures
            final(self).wf(),
            final(self).plugins() == old(self).plugins(),
            final(self).spec_capacity() == old(self).spec_capacity(),
            final(self).spec_config() == old(self).spec_config(),
            final(self).handlers() == spec_put(
                old(self).handlers(),
                old(self).spec_capacity(),
                id@,
                f,
            ),
    {
        self.fn_caches.put(id, f);
    }
}

/// Law: re-scanning is idempotent.  A plugin's id is a function of its name
/// alone, so loading an unchanged manifest again commits under the very same
/// id, and committing twice under one id leaves the registry as if only the
/// second commit had happened: no duplicate entry, the same set of ids, the
/// same count.
pub proof fn lemma_rescan_idempotent<H>(
    m: Map<Seq<char>, PluginHandleV<H>>,
    name: Seq<char>,
    e1: PluginHandleV<H>,
    e2: PluginHandleV<H>,
)
    ensures
        m.insert(spec_generate_id(name), e1).insert(spec_generate_id(name), e2) == m.insert(
            spec_generate_id(name),
            e2,
        ),
        m.insert(spec_generate_id(name), e1).insert(spec_generate_id(name), e2).dom() == m.insert(
            spec_generate_id(name),
            e2,
        ).dom(),
{
    let id = spec_generate_id(name);
    assert(m.insert(id, e1).insert(id, e2) =~= m.insert(id, e2));
}

/// Law: removal invalidates.  After a removal — the registry without the id,
/// the cache with the id evicted, as [`PluginManager::remove`] ensures — the
/// registry no longer knows the id, so [`PluginManager::prepare_invoke`]
/// answers not-found, and the handler cache no longer holds the id.
pub proof fn lemma_remove_invalidates<H, F>(
    m: Map<Seq<char>, PluginHandleV<H>>,
    s: Seq<(Seq<char>, F)>,
    id: Seq<char>,
)
    requires
        unique_keys(s),
    ensures
        !m.remove(id).contains_key(id),
        !cache_has(spec_evict(s, id), id),
{
    crate::cache::lemma_find_idx(s, id);
    let i = find_idx(s, id);
    if i >= 0 {
        assert forall|p: int| 0 <= p < spec_evict(s, id).len() implies (
        #[trigger] spec_evict(s, id)[p]).0 != id by {
            assert(spec_evict(s, id)[p] == if p < i {
                s[p]
            } else {
                s[p + 1]
            });
        }
    }
}

} // verus!
