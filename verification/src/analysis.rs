//! The analysis managers: the query surface passes use to obtain
//! analysis results.
//!
//! A manager owns the cache for one granularity of IR unit. Queries
//! get-or-compute a result (`get_result`), peek at the cache without
//! ever computing (`get_cached_result`), and analyses are registered
//! once per analysis type (`register_pass`). The module-level and
//! function-level managers are structurally identical and differ only
//! in the kind of IR unit handle they accept.
//!
//! The contracts of the query functions are phrased as step relations
//! over the underlying cache state, so that laws about successive
//! queries (a result is computed once; invalidation forces one
//! recomputation) can be stated and proved once for both granularities.

use vstd::prelude::*;

use crate::cache::{occurrences, AnalysisCache};
use crate::handle::{FunctionHandle, ModuleHandle};
use crate::keys::AnalysisKey;
use crate::{LlvmFunctionAnalysis, LlvmModuleAnalysis};

verus! {

/// Effect a well-behaved computation (an analysis entrypoint or a
/// query it performs transitively) may have on a cache: registrations
/// and the set of in-flight computations are untouched, cached results
/// are only added and never dropped or replaced, and the log grows
/// only with completions of pairs that were not already in flight.
pub open spec fn computation_step<V>(pre: AnalysisCache<V>, post: AnalysisCache<V>) -> bool {
    &&& post.wf()
    &&& post.registered() == pre.registered()
    &&& post.computing() == pre.computing()
    &&& forall|k: AnalysisKey, u: usize|
        pre.cached_at(k, u) is Some ==> #[trigger] post.cached_at(k, u) == pre.cached_at(k, u)
    &&& pre.history().is_prefix_of(post.history())
    &&& forall|i: int|
        pre.history().len() <= i < post.history().len() ==> !pre.computing().contains(
            #[trigger] post.history()[i],
        )
}

/// Effect of one get-or-compute query for analysis `id` on unit `u`
/// that returned `r`. On a cache hit the state is untouched and the
/// cached value is returned; on a miss exactly one computation of
/// (id, u) is logged, its result enters the cache, and previously
/// cached results survive.
pub open spec fn query_step<V>(
    pre: AnalysisCache<V>,
    post: AnalysisCache<V>,
    id: AnalysisKey,
    u: usize,
    r: V,
) -> bool {
    &&& post.wf()
    &&& post.registered() == pre.registered()
    &&& post.computing() == pre.computing()
    &&& post.cached_at(id, u) == Some(r)
    &&& match pre.cached_at(id, u) {
        Some(v) => post == pre && r == v,
        Option::<V>::None => {
            &&& pre.history().is_prefix_of(post.history())
            &&& occurrences(post.history(), (id, u)) == occurrences(pre.history(), (id, u)) + 1
            &&& forall|i: int|
                pre.history().len() <= i < post.history().len() && post.history()[i] != (
                id,
                u,
            ) ==> !pre.computing().contains(#[trigger] post.history()[i])
            &&& forall|k: AnalysisKey, u2: usize|
                pre.cached_at(k, u2) is Some ==> #[trigger] post.cached_at(k, u2)
                    == pre.cached_at(k, u2)
        },
    }
}

/// Law: a result is computed exactly once. The first query of an
/// uncached (id, u) logs one computation of that pair; a second query
/// with no invalidation in between returns the identical value, leaves
/// the cache untouched, and logs nothing.
pub proof fn lemma_result_computed_once<V>(
    pre: AnalysisCache<V>,
    mid: AnalysisCache<V>,
    post: AnalysisCache<V>,
    id: AnalysisKey,
    u: usize,
    r1: V,
    r2: V,
)
    requires
        pre.cached_at(id, u) is None,
        query_step(pre, mid, id, u, r1),
        query_step(mid, post, id, u, r2),
    ensures
        r2 == r1,
        post == mid,
        occurrences(mid.history(), (id, u)) == occurrences(pre.history(), (id, u)) + 1,
        occurrences(post.history(), (id, u)) == occurrences(mid.history(), (id, u)),
{
}

/// Manager of module-level analyses: the query surface a module pass
/// sees, owning the cache of module analysis results.
pub struct ModuleAnalysisManager<V> {
    cache: AnalysisCache<V>,
}

impl<V> ModuleAnalysisManager<V> {
    /// The cache state this manager governs.
    pub closed spec fn state(self) -> AnalysisCache<V> {
        self.cache
    }

    /// Well-formedness of the cache state.
    pub open spec fn wf(self) -> bool {
        self.state().wf()
    }

    /// Keys of the registered analyses.
    pub open spec fn registered(self) -> Set<AnalysisKey> {
        self.state().registered()
    }

    /// Pairs whose computation is in flight.
    pub open spec fn computing(self) -> Set<(AnalysisKey, usize)> {
        self.state().computing()
    }

    /// Log of completed computations.
    pub open spec fn history(self) -> Seq<(AnalysisKey, usize)> {
        self.state().history()
    }

    /// The cached result for analysis `k` on the module at `u`.
    pub open spec fn cached_at(self, k: AnalysisKey, u: usize) -> Option<V> {
        self.state().cached_at(k, u)
    }

    /// Whether some computation of analysis `k` is in flight.
    pub open spec fn key_computing(self, k: AnalysisKey) -> bool {
        self.state().key_computing(k)
    }
}

impl<V: Copy> ModuleAnalysisManager<V> {
    /// A manager with no analyses registered and an empty cache.
    pub fn new() -> (r: ModuleAnalysisManager<V>)
        ensures
            r.wf(),
            r.registered() == Set::<AnalysisKey>::empty(),
            r.computing() == Set::<(AnalysisKey, usize)>::empty(),
            r.history() == Seq::<(AnalysisKey, usize)>::empty(),
            forall|k: AnalysisKey, u: usize| r.cached_at(k, u) is None,
    {
        ModuleAnalysisManager { cache: AnalysisCache::new() }
    }

    /// Whether the analysis type `A` is registered with this manager.
    pub fn is_registered<A: LlvmModuleAnalysis<Output = V>>(&self) -> (r: bool)
        ensures
            r == self.registered().contains(A::id_spec()),
    {
        let id = A::id();
        self.cache.is_registered(id)
    }

    /// Whether a computation of the analysis type `A` is in flight.
    /// An analysis entrypoint may use this to refuse requesting its
    /// own in-flight result instead of aborting.
    pub fn is_computing<A: LlvmModuleAnalysis<Output = V>>(&self) -> (r: bool)
        ensures
            r == self.key_computing(A::id_spec()),
    {
        let id = A::id();
        self.cache.is_key_computing(id)
    }

    /// Transfers the analysis `pass` to the manager under its type's
    /// key. Duplicate registration of one analysis type is a fatal
    /// contract violation, excluded here by precondition; callers that
    /// cannot establish it use `try_register_pass` and abort on
    /// refusal.
    #[allow(unused_variables)]
    pub fn register_pass<A: LlvmModuleAnalysis<Output = V>>(&mut self, pass: A)
        requires
            old(self).wf(),
            !old(self).registered().contains(A::id_spec()),
        ensures
            final(self).wf(),
            final(self).registered() == old(self).registered().insert(A::id_spec()),
            final(self).computing() == old(self).computing(),
            final(self).history() == old(self).history(),
            forall|k: AnalysisKey, u: usize|
                final(self).cached_at(k, u) == old(self).cached_at(k, u),
    {
        let id = A::id();
        let ok = self.cache.try_register(id);
    }

    /// Transfers the analysis `pass` to the manager unless its type is
    /// already registered. Returns whether the registration took
    /// place: `false` reports the duplicate-registration contract
    /// violation to the caller, which raises the fatal error rather
    /// than silently continuing.
    #[allow(unused_variables)]
    pub fn try_register_pass<A: LlvmModuleAnalysis<Output = V>>(&mut self, pass: A) -> (r: bool)
        requires
            old(self).wf(),
        ensures
            final(self).wf(),
            r == !old(self).registered().contains(A::id_spec()),
            r ==> final(self).registered() == old(self).registered().insert(A::id_spec()),
            !r ==> final(self).registered() == old(self).registered(),
            final(self).computing() == old(self).computing(),
            final(self).history() == old(self).history(),
            forall|k: AnalysisKey, u: usize|
                final(self).cached_at(k, u) == old(self).cached_at(k, u),
    {
        let id = A::id();
        self.cache.try_register(id)
    }

    /// Returns the cached result of analysis `A` on the given module,
    /// or nothing if it is not cached. Never triggers a computation.
    /// Querying an unregistered analysis, or one whose computation is
    /// in flight, is a fatal contract violation, excluded here by
    /// precondition.
    pub fn get_cached_result<A: LlvmModuleAnalysis<Output = V>>(
        &self,
        module: ModuleHandle,
    ) -> (r: Option<V>)
        requires
            self.wf(),
            self.registered().contains(A::id_spec()),
            !self.key_computing(A::id_spec()),
        ensures
            r == self.cached_at(A::id_spec(), module.addr),
    {
        let id = A::id();
        self.cache.lookup(id, module.addr)
    }

    /// Returns the result of analysis `A` on the given module,
    /// computing and caching it first if it is absent. The computation
    /// runs `analysis.run_analysis` with this manager, so it may query
    /// other analyses in turn. Querying an unregistered analysis, or
    /// one whose computation is in flight, is a fatal contract
    /// violation, excluded here by precondition.
    pub fn get_result<A: LlvmModuleAnalysis<Output = V>>(
        &mut self,
        analysis: &A,
        module: ModuleHandle,
    ) -> (r: V)
        requires
            old(self).wf(),
            old(self).registered().contains(A::id_spec()),
            !old(self).key_computing(A::id_spec()),
        ensures
            query_step(old(self).state(), final(self).state(), A::id_spec(), module.addr, r),
    {
        let id = A::id();
        let u = module.addr;
        let ghost pre = self.cache;
        match self.cache.lookup(id, u) {
            Some(v) => v,
            Option::<V>::None => {
                proof {
                    // the pair itself is not in flight: its key is not
                    if pre.computing().contains((id, u)) {
                        assert(pre.key_computing(id));
                    }
                }
                self.cache.begin_computation(id, u);
                let ghost started = self.cache;
                let v = analysis.run_analysis(module, self);
                let ghost computed = self.cache;
                proof {
                    assert(computed.computing() == started.computing());
                    assert(started.computing().contains((id, u)));
                }
                self.cache.complete_computation(id, u, v);
                proof {
                    // the in-flight mark is removed again: computing
                    // returns to its starting value
                    assert(self.cache.computing() =~= pre.computing());
                    // the computation of (id, u) is logged exactly once:
                    // nothing the entrypoint did could complete it
                    assert(started.history() == pre.history());
                    crate::cache::lemma_occurrences_unchanged(
                        pre.history(),
                        computed.history(),
                        (id, u),
                    );
                    crate::cache::lemma_occurrences_push(computed.history(), (id, u), (id, u));
                    assert(pre.history().is_prefix_of(self.cache.history())) by {
                        assert(computed.history().is_prefix_of(self.cache.history()));
                    }
                    // previously cached results survive
                    assert forall|k: AnalysisKey, u2: usize|
                        pre.cached_at(k, u2) is Some implies #[trigger] self.cache.cached_at(
                        k,
                        u2,
                    ) == pre.cached_at(k, u2) by {
                        assert(started.cached_at(k, u2) == pre.cached_at(k, u2));
                        assert(computed.cached_at(k, u2) == pre.cached_at(k, u2));
                    }
                    // new log entries other than (id, u) stem from the
                    // entrypoint and avoid everything in flight
                    assert forall|i: int|
                        pre.history().len() <= i < self.cache.history().len()
                            && self.cache.history()[i] != (id, u) implies !pre.computing()
                        .contains(#[trigger] self.cache.history()[i]) by {
                        assert(i < computed.history().len());
                        assert(self.cache.history()[i] == computed.history()[i]);
                        assert(!started.computing().contains(computed.history()[i]));
                        assert(started.computing() == pre.computing().insert((id, u)));
                    }
                }
                v
            },
        }
    }

    /// Drops every cached result for the given module, as the host
    /// does when a pass reports that it preserved nothing on it.
    pub fn invalidate(&mut self, module: ModuleHandle)
        requires
            old(self).wf(),
        ensures
            final(self).wf(),
            final(self).registered() == old(self).registered(),
            final(self).computing() == old(self).computing(),
            final(self).history() == old(self).history(),
            forall|k: AnalysisKey| final(self).cached_at(k, module.addr) is None,
            forall|k: AnalysisKey, u2: usize|
                u2 != module.addr ==> final(self).cached_at(k, u2) == old(self).cached_at(k, u2),
    {
        self.cache.invalidate_unit(module.addr);
    }
}

/// Manager of function-level analyses: the query surface a function
/// pass sees, owning the cache of function analysis results. It is
/// the function-granularity twin of [`ModuleAnalysisManager`].
pub struct FunctionAnalysisManager<V> {
    cache: AnalysisCache<V>,
}

impl<V> FunctionAnalysisManager<V> {
    /// The cache state this manager governs.
    pub closed spec fn state(self) -> AnalysisCache<V> {
        self.cache
    }

    /// Well-formedness of the cache state.
    pub open spec fn wf(self) -> bool {
        self.state().wf()
    }

    /// Keys of the registered analyses.
    pub open spec fn registered(self) -> Set<AnalysisKey> {
        self.state().registered()
    }

    /// Pairs whose computation is in flight.
    pub open spec fn computing(self) -> Set<(AnalysisKey, usize)> {
        self.state().computing()
    }

    /// Log of completed computations.
    pub open spec fn history(self) -> Seq<(AnalysisKey, usize)> {
        self.state().history()
    }

    /// The cached result for analysis `k` on the function at `u`.
    pub open spec fn cached_at(self, k: AnalysisKey, u: usize) -> Option<V> {
        self.state().cached_at(k, u)
    }

    /// Whether some computation of analysis `k` is in flight.
    pub open spec fn key_computing(self, k: AnalysisKey) -> bool {
        self.state().key_computing(k)
    }
}

impl<V: Copy> FunctionAnalysisManager<V> {
    /// A manager with no analyses registered and an empty cache.
    pub fn new() -> (r: FunctionAnalysisManager<V>)
        ensures
            r.wf(),
            r.registered() == Set::<AnalysisKey>::empty(),
            r.computing() == Set::<(AnalysisKey, usize)>::empty(),
            r.history() == Seq::<(AnalysisKey, usize)>::empty(),
            forall|k: AnalysisKey, u: usize| r.cached_at(k, u) is None,
    {
        FunctionAnalysisManager { cache: AnalysisCache::new() }
    }

    /// Whether the analysis type `A` is registered with this manager.
    pub fn is_registered<A: LlvmFunctionAnalysis<Output = V>>(&self) -> (r: bool)
        ensures
            r == self.registered().contains(A::id_spec()),
    {
        let id = A::id();
        self.cache.is_registered(id)
    }

    /// Whether a computation of the analysis type `A` is in flight.
    /// An analysis entrypoint may use this to refuse requesting its
    /// own in-flight result instead of aborting.
    pub fn is_computing<A: LlvmFunctionAnalysis<Output = V>>(&self) -> (r: bool)
        ensures
            r == self.key_computing(A::id_spec()),
    {
        let id = A::id();
        self.cache.is_key_computing(id)
    }

    /// Transfers the analysis `pass` to the manager under its type's
    /// key. Duplicate registration of one analysis type is a fatal
    /// contract violation, excluded here by precondition; callers that
    /// cannot establish it use `try_register_pass` and abort on
    /// refusal.
    #[allow(unused_variables)]
    pub fn register_pass<A: LlvmFunctionAnalysis<Output = V>>(&mut self, pass: A)
        requires
            old(self).wf(),
            !old(self).registered().contains(A::id_spec()),
        ensures
            final(self).wf(),
            final(self).registered() == old(self).registered().insert(A::id_spec()),
            final(self).computing() == old(self).computing(),
            final(self).history() == old(self).history(),
            forall|k: AnalysisKey, u: usize|
                final(self).cached_at(k, u) == old(self).cached_at(k, u),
    {
        let id = A::id();
        let ok = self.cache.try_register(id);
    }

    /// Transfers the analysis `pass` to the manager unless its type is
    /// already registered. Returns whether the registration took
    /// place: `false` reports the duplicate-registration contract
    /// violation to the caller, which raises the fatal error rather
    /// than silently continuing.
    #[allow(unused_variables)]
    pub fn try_register_pass<A: LlvmFunctionAnalysis<Output = V>>(&mut self, pass: A) -> (r:
        bool)
        requires
            old(self).wf(),
        ensures
            final(self).wf(),
            r == !old(self).registered().contains(A::id_spec()),
            r ==> final(self).registered() == old(self).registered().insert(A::id_spec()),
            !r ==> final(self).registered() == old(self).registered(),
            final(self).computing() == old(self).computing(),
            final(self).history() == old(self).history(),
            forall|k: AnalysisKey, u: usize|
                final(self).cached_at(k, u) == old(self).cached_at(k, u),
    {
        let id = A::id();
        self.cache.try_register(id)
    }

    /// Returns the cached result of analysis `A` on the given
    /// function, or nothing if it is not cached. Never triggers a
    /// computation. Querying an unregistered analysis, or one whose
    /// computation is in flight, is a fatal contract violation,
    /// excluded here by precondition.
    pub fn get_cached_result<A: LlvmFunctionAnalysis<Output = V>>(
        &self,
        function: FunctionHandle,
    ) -> (r: Option<V>)
        requires
            self.wf(),
            self.registered().contains(A::id_spec()),
            !self.key_computing(A::id_spec()),
        ensures
            r == self.cached_at(A::id_spec(), function.addr),
    {
        let id = A::id();
        self.cache.lookup(id, function.addr)
    }

    /// Returns the result of analysis `A` on the given function,
    /// computing and caching it first if it is absent. The computation
    /// runs `analysis.run_analysis` with this manager, so it may query
    /// other analyses in turn. Querying an unregistered analysis, or
    /// one whose computation is in flight, is a fatal contract
    /// violation, excluded here by precondition.
    pub fn get_result<A: LlvmFunctionAnalysis<Output = V>>(
        &mut self,
        analysis: &A,
        function: FunctionHandle,
    ) -> (r: V)
        requires
            old(self).wf(),
            old(self).registered().contains(A::id_spec()),
            !old(self).key_computing(A::id_spec()),
        ensures
            query_step(old(self).state(), final(self).state(), A::id_spec(), function.addr, r),
    {
        let id = A::id();
        let u = function.addr;
        let ghost pre = self.cache;
        match self.cache.lookup(id, u) {
            Some(v) => v,
            Option::<V>::None => {
                proof {
                    if pre.computing().contains((id, u)) {
                        assert(pre.key_computing(id));
                    }
                }
                self.cache.begin_computation(id, u);
                let ghost started = self.cache;
                let v = analysis.run_analysis(function, self);
                let ghost computed = self.cache;
                proof {
                    assert(computed.computing() == started.computing());
                    assert(started.computing().contains((id, u)));
                }
                self.cache.complete_computation(id, u, v);
                proof {
                    assert(self.cache.computing() =~= pre.computing());
                    assert(started.history() == pre.history());
                    crate::cache::lemma_occurrences_unchanged(
                        pre.history(),
                        computed.history(),
                        (id, u),
                    );
                    crate::cache::lemma_occurrences_push(computed.history(), (id, u), (id, u));
                    assert(pre.history().is_prefix_of(self.cache.history())) by {
                        assert(computed.history().is_prefix_of(self.cache.history()));
                    }
                    assert forall|k: AnalysisKey, u2: usize|
                        pre.cached_at(k, u2) is Some implies #[trigger] self.cache.cached_at(
                        k,
                        u2,
                    ) == pre.cached_at(k, u2) by {
                        assert(started.cached_at(k, u2) == pre.cached_at(k, u2));
                        assert(computed.cached_at(k, u2) == pre.cached_at(k, u2));
                    }
                    assert forall|i: int|
                        pre.history().len() <= i < self.cache.history().len()
                            && self.cache.history()[i] != (id, u) implies !pre.computing()
                        .contains(#[trigger] self.cache.history()[i]) by {
                        assert(i < computed.history().len());
                        assert(self.cache.history()[i] == computed.history()[i]);
                        assert(!started.computing().contains(computed.history()[i]));
                        assert(started.computing() == pre.computing().insert((id, u)));
                    }
                }
                v
            },
        }
    }

    /// Drops every cached result for the given function, as the host
    /// does when a pass reports that it preserved nothing on it.
    pub fn invalidate(&mut self, function: FunctionHandle)
        requires
            old(self).wf(),
        ensures
            final(self).wf(),
            final(self).registered() == old(self).registered(),
            final(self).computing() == old(self).computing(),
            final(self).history() == old(self).history(),
            forall|k: AnalysisKey| final(self).cached_at(k, function.addr) is None,
            forall|k: AnalysisKey, u2: usize|
                u2 != function.addr ==> final(self).cached_at(k, u2) == old(self).cached_at(
                    k,
                    u2,
                ),
    {
        self.cache.invalidate_unit(function.addr);
    }
}

/// Scoped view into the function-level analysis machinery that the
/// module-level manager exposes, so a module pass can reach
/// function-level analyses without the host exposing the nesting.
pub struct FunctionAnalysisManagerProxy<V> {
    manager: FunctionAnalysisManager<V>,
}

impl<V> FunctionAnalysisManagerProxy<V> {
    /// The function-level manager behind the proxy.
    pub closed spec fn manager_view(self) -> FunctionAnalysisManager<V> {
        self.manager
    }
}

impl<V: Copy> FunctionAnalysisManagerProxy<V> {
    /// Wraps a function-level manager in a proxy.
    pub fn from_manager(manager: FunctionAnalysisManager<V>) -> (r:
        FunctionAnalysisManagerProxy<V>)
        ensures
            r.manager_view() == manager,
    {
        FunctionAnalysisManagerProxy { manager }
    }

    /// Returns the inner function-level manager.
    pub fn get_manager(self) -> (r: FunctionAnalysisManager<V>)
        ensures
            r == self.manager_view(),
    {
        self.manager
    }
}

} // verus!
