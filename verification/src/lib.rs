//! Safety layer for writing compiler transformation and analysis passes
//! against an extensible pass-management subsystem.
//!
//! The host optimizer drives everything through callbacks: passes and
//! analyses are registered with its pass manager, analysis results are
//! computed on demand and cached per IR unit, and a transformation pass
//! reports through a preservation signal whether the cached results for
//! the unit it ran on are still valid.
//!
//! This crate verifies the bookkeeping at the heart of that bridge: the
//! analysis cache state machine (register, query, compute, invalidate),
//! the result boxing protocol, the minting of process-unique analysis
//! keys, pipeline-parsing dispatch, and the plugin entry descriptor.
//! The native side of the boundary (raw pointers, trampolines, the C
//! calling convention) stays outside the verified core and hands it
//! plain values.

use vstd::prelude::*;

pub mod analysis;
pub mod cache;
pub mod handle;
pub mod keys;
pub mod pass_builder;
pub mod pass_manager;
pub mod plugin_entry;
pub mod result_box;

use crate::analysis::computation_step;

pub use crate::analysis::{
    FunctionAnalysisManager, FunctionAnalysisManagerProxy, ModuleAnalysisManager,
};
pub use crate::handle::{FunctionHandle, ModuleHandle};
pub use crate::keys::{AnalysisKey, KeyRegistry};
pub use crate::pass_builder::{OptimizationLevel, PassBuilder, PipelineParsing};
pub use crate::pass_manager::{FunctionPassManager, ModulePassManager};
pub use crate::plugin_entry::PassPluginLibraryInfo;
pub use crate::result_box::ResultBox;

verus! {

/// Signal returned by every transformation pass, telling the pass
/// manager whether cached analysis results for the IR unit it ran on
/// are still valid.
#[derive(Clone, Copy)]
pub enum PreservedAnalyses {
    /// The pass did not modify the IR unit: every cached analysis
    /// result for it remains valid.
    All,
    /// The pass modified the IR unit: every cached analysis result for
    /// it must be invalidated and recomputed on the next query.
    Nothing,
}

/// A transformation pass over a module, allowed to mutate its IR.
///
/// The host invokes `run_pass` once per pipeline position per module,
/// strictly single-threaded, never while an analysis computation is in
/// flight.
pub trait LlvmModulePass {
    /// Payload type of the analysis cache this pass queries.
    type Value;

    /// Entrypoint for the pass.
    ///
    /// The manager lets the pass query analysis results. A pass may
    /// compute and thereby cache analyses, but never unregisters,
    /// drops or replaces a cached result: if it modified the IR it
    /// reports `PreservedAnalyses::Nothing`, and the invalidation is
    /// the host's move.
    fn run_pass(
        &self,
        module: ModuleHandle,
        manager: &mut ModuleAnalysisManager<Self::Value>,
    ) -> (r: PreservedAnalyses)
        requires
            old(manager).wf(),
            old(manager).computing() == Set::<(AnalysisKey, usize)>::empty(),
        ensures
            computation_step(old(manager).state(), final(manager).state()),
    ;
}

/// An analysis over a module, not allowed to mutate its IR, producing
/// a cacheable result.
pub trait LlvmModuleAnalysis {
    /// Result of one execution of this analysis, as stored in the
    /// analysis cache.
    type Output;

    /// The key identifying this analysis type, as a function: every
    /// call of `id` returns it.
    spec fn id_spec() -> AnalysisKey;

    /// Identifier for the analysis type: stable across calls, distinct
    /// from the key of every other registered analysis type.
    fn id() -> (r: AnalysisKey)
        ensures
            r == Self::id_spec(),
    ;

    /// Entrypoint for the analysis.
    ///
    /// The manager lets the computation query other analyses in turn.
    /// A computation may add cached results but never unregisters,
    /// drops or replaces one, and completes no computation that was
    /// already in flight when it started.
    fn run_analysis(
        &self,
        module: ModuleHandle,
        manager: &mut ModuleAnalysisManager<Self::Output>,
    ) -> (r: Self::Output)
        requires
            old(manager).wf(),
        ensures
            computation_step(old(manager).state(), final(manager).state()),
    ;
}

/// A transformation pass over a function, allowed to mutate its IR.
///
/// The host invokes `run_pass` once per pipeline position per
/// function, strictly single-threaded, never while an analysis
/// computation is in flight.
pub trait LlvmFunctionPass {
    /// Payload type of the analysis cache this pass queries.
    type Value;

    /// Entrypoint for the pass.
    ///
    /// The manager lets the pass query analysis results. A pass may
    /// compute and thereby cache analyses, but never unregisters,
    /// drops or replaces a cached result: if it modified the IR it
    /// reports `PreservedAnalyses::Nothing`, and the invalidation is
    /// the host's move.
    fn run_pass(
        &self,
        function: FunctionHandle,
        manager: &mut FunctionAnalysisManager<Self::Value>,
    ) -> (r: PreservedAnalyses)
        requires
            old(manager).wf(),
            old(manager).computing() == Set::<(AnalysisKey, usize)>::empty(),
        ensures
            computation_step(old(manager).state(), final(manager).state()),
    ;
}

/// An analysis over a function, not allowed to mutate its IR,
/// producing a cacheable result.
pub trait LlvmFunctionAnalysis {
    /// Result of one execution of this analysis, as stored in the
    /// analysis cache.
    type Output;

    /// The key identifying this analysis type, as a function: every
    /// call of `id` returns it.
    spec fn id_spec() -> AnalysisKey;

    /// Identifier for the analysis type: stable across calls, distinct
    /// from the key of every other registered analysis type.
    fn id() -> (r: AnalysisKey)
        ensures
            r == Self::id_spec(),
    ;

    /// Entrypoint for the analysis.
    ///
    /// The manager lets the computation query other analyses in turn.
    /// A computation may add cached results but never unregisters,
    /// drops or replaces one, and completes no computation that was
    /// already in flight when it started.
    fn run_analysis(
        &self,
        function: FunctionHandle,
        manager: &mut FunctionAnalysisManager<Self::Output>,
    ) -> (r: Self::Output)
        requires
            old(manager).wf(),
        ensures
            computation_step(old(manager).state(), final(manager).state()),
    ;
}

} // verus!
