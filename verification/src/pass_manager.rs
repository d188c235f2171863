//! Pass managers: the surface for appending transformation passes to
//! a pipeline, and the step a pipeline position performs when the host
//! runs it.
//!
//! Appending transfers ownership of the pass value to the pipeline;
//! the same pass type may legitimately appear several times, so no
//! duplicate detection happens here, unlike analysis registration.
//!
//! Running one pipeline position is the composition the host performs:
//! invoke the pass, and if it reports that it preserved nothing,
//! invalidate every cached analysis result for the unit it ran on
//! before the next position runs. That composition is verified here as
//! `run_module_pass` / `run_function_pass`, and the resulting step
//! relation carries the invalidate-then-recompute law.

use vstd::prelude::*;

use crate::analysis::{
    query_step, FunctionAnalysisManager, ModuleAnalysisManager,
};
use crate::cache::{occurrences, AnalysisCache};
use crate::handle::{FunctionHandle, ModuleHandle};
use crate::keys::AnalysisKey;
use crate::{LlvmFunctionPass, LlvmModulePass, PreservedAnalyses};

verus! {

/// Effect of running one pipeline position on the unit at address `u`
/// against an analysis cache, with the host's invalidation applied: if
/// the pass preserved everything, cached results at most grow; if it
/// preserved nothing, the unit's cached results are gone and every
/// other unit's survive.
pub open spec fn pass_step<V>(
    pre: AnalysisCache<V>,
    post: AnalysisCache<V>,
    u: usize,
    r: PreservedAnalyses,
) -> bool {
    &&& post.wf()
    &&& post.registered() == pre.registered()
    &&& post.computing() == pre.computing()
    &&& pre.history().is_prefix_of(post.history())
    &&& match r {
        PreservedAnalyses::All => forall|k: AnalysisKey, u2: usize|
            pre.cached_at(k, u2) is Some ==> #[trigger] post.cached_at(k, u2) == pre.cached_at(
                k,
                u2,
            ),
        PreservedAnalyses::Nothing => {
            &&& forall|k: AnalysisKey| post.cached_at(k, u) is None
            &&& forall|k: AnalysisKey, u2: usize|
                u2 != u && pre.cached_at(k, u2) is Some ==> #[trigger] post.cached_at(k, u2)
                    == pre.cached_at(k, u2)
        },
    }
}

/// Law: a pass that preserves nothing invalidates the unit's cache,
/// so the next query finds nothing cached and triggers exactly one
/// recomputation.
pub proof fn lemma_invalidation_forces_recompute<V>(
    pre: AnalysisCache<V>,
    mid: AnalysisCache<V>,
    post: AnalysisCache<V>,
    u: usize,
    id: AnalysisKey,
    r: V,
)
    requires
        pass_step(pre, mid, u, PreservedAnalyses::Nothing),
        query_step(mid, post, id, u, r),
    ensures
        mid.cached_at(id, u) is None,
        occurrences(post.history(), (id, u)) == occurrences(mid.history(), (id, u)) + 1,
{
}

/// Runs a module pass on a module as one pipeline position: invokes
/// the pass, then applies the host's cache invalidation if the pass
/// reports that it preserved nothing. Returns the pass's preservation
/// signal.
pub fn run_module_pass<V: Copy, P: LlvmModulePass<Value = V>>(
    pass: &P,
    module: ModuleHandle,
    manager: &mut ModuleAnalysisManager<V>,
) -> (r: PreservedAnalyses)
    requires
        old(manager).wf(),
        old(manager).computing() == Set::<(AnalysisKey, usize)>::empty(),
    ensures
        pass_step(old(manager).state(), final(manager).state(), module.addr, r),
{
    let ghost pre = old(manager).state();
    let r = pass.run_pass(module, manager);
    let ghost mid = *manager;
    match r {
        PreservedAnalyses::All => {
            proof {
                assert(pass_step(pre, manager.state(), module.addr, r));
            }
        },
        PreservedAnalyses::Nothing => {
            manager.invalidate(module);
            proof {
                assert(manager.state().history() == mid.state().history()) by {
                    assert(manager.history() == mid.history());
                }
                assert forall|k: AnalysisKey| manager.state().cached_at(k, module.addr)
                    is None by {
                    assert(manager.cached_at(k, module.addr) is None);
                }
                assert forall|k: AnalysisKey, u2: usize|
                    u2 != module.addr && pre.cached_at(k, u2) is Some implies #[trigger] manager
                    .state().cached_at(k, u2) == pre.cached_at(k, u2) by {
                    assert(mid.state().cached_at(k, u2) == pre.cached_at(k, u2));
                    assert(manager.cached_at(k, u2) == mid.cached_at(k, u2));
                }
                assert(pass_step(pre, manager.state(), module.addr, r));
            }
        },
    }
    r
}

/// Runs a function pass on a function as one pipeline position:
/// invokes the pass, then applies the host's cache invalidation if the
/// pass reports that it preserved nothing. Returns the pass's
/// preservation signal.
pub fn run_function_pass<V: Copy, P: LlvmFunctionPass<Value = V>>(
    pass: &P,
    function: FunctionHandle,
    manager: &mut FunctionAnalysisManager<V>,
) -> (r: PreservedAnalyses)
    requires
        old(manager).wf(),
        old(manager).computing() == Set::<(AnalysisKey, usize)>::empty(),
    ensures
        pass_step(old(manager).state(), final(manager).state(), function.addr, r),
{
    let ghost pre = old(manager).state();
    let r = pass.run_pass(function, manager);
    let ghost mid = *manager;
    match r {
        PreservedAnalyses::All => {
            proof {
                assert(pass_step(pre, manager.state(), function.addr, r));
            }
        },
        PreservedAnalyses::Nothing => {
            manager.invalidate(function);
            proof {
                assert(manager.state().history() == mid.state().history()) by {
                    assert(manager.history() == mid.history());
                }
                assert forall|k: AnalysisKey| manager.state().cached_at(k, function.addr)
                    is None by {
                    assert(manager.cached_at(k, function.addr) is None);
                }
                assert forall|k: AnalysisKey, u2: usize|
                    u2 != function.addr && pre.cached_at(k, u2) is Some implies #[trigger] manager
                    .state().cached_at(k, u2) == pre.cached_at(k, u2) by {
                    assert(mid.state().cached_at(k, u2) == pre.cached_at(k, u2));
                    assert(manager.cached_at(k, u2) == mid.cached_at(k, u2));
                }
                assert(pass_step(pre, manager.state(), function.addr, r));
            }
        },
    }
    r
}

/// The pipeline of module passes being built: passes are appended in
/// order and owned by the pipeline from then on.
pub struct ModulePassManager {
    pass_count: u64,
}

impl ModulePassManager {
    /// Number of passes appended so far.
    pub closed spec fn pipeline_len(self) -> nat {
        self.pass_count as nat
    }

    /// An empty pipeline.
    pub fn new() -> (r: ModulePassManager)
        ensures
            r.pipeline_len() == 0,
    {
        ModulePassManager { pass_count: 0 }
    }

    /// Appends a pass to this pipeline, taking ownership of it. The
    /// same pass type may be appended any number of times.
    #[allow(unused_variables)]
    pub fn add_pass<P: LlvmModulePass>(&mut self, pass: P)
        requires
            old(self).pipeline_len() < u64::MAX,
        ensures
            final(self).pipeline_len() == old(self).pipeline_len() + 1,
    {
        self.pass_count = self.pass_count + 1;
    }

    /// Whether the pipeline contains any passes.
    pub fn is_empty(&self) -> (r: bool)
        ensures
            r == (self.pipeline_len() == 0),
    {
        self.pass_count == 0
    }

    /// Number of passes appended so far.
    pub fn len(&self) -> (r: u64)
        ensures
            r as nat == self.pipeline_len(),
    {
        self.pass_count
    }
}

/// The pipeline of function passes being built: passes are appended
/// in order and owned by the pipeline from then on.
pub struct FunctionPassManager {
    pass_count: u64,
}

impl FunctionPassManager {
    /// Number of passes appended so far.
    pub closed spec fn pipeline_len(self) -> nat {
        self.pass_count as nat
    }

    /// An empty pipeline.
    pub fn new() -> (r: FunctionPassManager)
        ensures
            r.pipeline_len() == 0,
    {
        FunctionPassManager { pass_count: 0 }
    }

    /// Appends a pass to this pipeline, taking ownership of it. The
    /// same pass type may be appended any number of times.
    #[allow(unused_variables)]
    pub fn add_pass<P: LlvmFunctionPass>(&mut self, pass: P)
        requires
            old(self).pipeline_len() < u64::MAX,
        ensures
            final(self).pipeline_len() == old(self).pipeline_len() + 1,
    {
        self.pass_count = self.pass_count + 1;
    }

    /// Whether the pipeline contains any passes.
    pub fn is_empty(&self) -> (r: bool)
        ensures
            r == (self.pipeline_len() == 0),
    {
        self.pass_count == 0
    }

    /// Number of passes appended so far.
    pub fn len(&self) -> (r: u64)
        ensures
            r as nat == self.pipeline_len(),
    {
        self.pass_count
    }
}

} // verus!
