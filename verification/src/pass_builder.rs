//! The pass builder: the entry object the host hands to the plugin at
//! load time, and the dispatch the host performs over registered
//! pipeline-parsing callbacks.
//!
//! A plugin registers two kinds of callbacks. Pipeline-parsing
//! callbacks are offered each textual pipeline element in registration
//! order until one claims it; a claiming callback has already pushed
//! its passes onto the pass manager under construction, a declining
//! one has left it untouched. Extension-point callbacks fire at fixed
//! positions of the host's standard optimization pipeline, receiving
//! the pass manager for that position and the requested optimization
//! level. A registration call itself cannot fail.

use vstd::prelude::*;

use crate::pass_manager::{FunctionPassManager, ModulePassManager};
use crate::{LlvmFunctionPass, LlvmModulePass};

verus! {

/// Outcome of offering one textual pipeline element to a parsing
/// callback.
#[derive(Clone, Copy)]
pub enum PipelineParsing {
    /// The callback claimed the element and has populated the pass
    /// manager accordingly.
    Parsed,
    /// The callback did not recognize the element; the next candidate
    /// parser gets a chance.
    NotParsed,
}

/// The host's high-level optimization levels.
#[derive(Clone, Copy, Debug)]
pub enum OptimizationLevel {
    /// Disables as many optimizations as possible.
    O0,
    /// Optimizes quickly without destroying debuggability.
    O1,
    /// Optimizes for fast execution without significant compile time
    /// or code size growth.
    O2,
    /// Optimizes for fast execution as much as possible.
    O3,
    /// Optimizes for small code size without significant execution
    /// time slowdowns.
    Os,
    /// Optimizes for code size at any and all costs.
    Oz,
}

/// A pipeline-parsing callback over module pipelines: offered a pass
/// name, it either claims it and pushes passes onto the manager, or
/// declines and leaves the manager untouched.
pub trait ModulePipelineParsingCallback {
    /// The set of pass names this callback claims.
    spec fn claims(&self, name: Seq<u8>) -> bool;

    /// Offers the pipeline element `name` to this callback. Claiming
    /// means the manager was populated; declining means it was left
    /// exactly as it was.
    fn try_parse(&self, name: &[u8], manager: &mut ModulePassManager) -> (r: PipelineParsing)
        requires
            old(manager).pipeline_len() < u64::MAX,
        ensures
            (r is Parsed) == self.claims(name@),
            !self.claims(name@) ==> *final(manager) == *old(manager),
            final(manager).pipeline_len() >= old(manager).pipeline_len(),
    ;
}

/// A pipeline-parsing callback over function pipelines: offered a
/// pass name, it either claims it and pushes passes onto the manager,
/// or declines and leaves the manager untouched.
pub trait FunctionPipelineParsingCallback {
    /// The set of pass names this callback claims.
    spec fn claims(&self, name: Seq<u8>) -> bool;

    /// Offers the pipeline element `name` to this callback. Claiming
    /// means the manager was populated; declining means it was left
    /// exactly as it was.
    fn try_parse(&self, name: &[u8], manager: &mut FunctionPassManager) -> (r: PipelineParsing)
        requires
            old(manager).pipeline_len() < u64::MAX,
        ensures
            (r is Parsed) == self.claims(name@),
            !self.claims(name@) ==> *final(manager) == *old(manager),
            final(manager).pipeline_len() >= old(manager).pipeline_len(),
    ;
}

/// A callback that registers module analyses when the host sets up a
/// module analysis manager: it only registers, never unregisters,
/// computes or invalidates.
pub trait ModuleAnalysisRegistrationCallback {
    /// Payload type of the analysis cache.
    type Value;

    /// Registers this plugin's module analyses with the manager.
    fn register_analyses(
        &self,
        manager: &mut crate::analysis::ModuleAnalysisManager<Self::Value>,
    )
        requires
            old(manager).wf(),
        ensures
            final(manager).wf(),
            old(manager).registered().subset_of(final(manager).registered()),
            final(manager).computing() == old(manager).computing(),
            final(manager).history() == old(manager).history(),
            forall|k: crate::keys::AnalysisKey, u: usize|
                final(manager).cached_at(k, u) == old(manager).cached_at(k, u),
    ;
}

/// A callback that registers function analyses when the host sets up
/// a function analysis manager: it only registers, never unregisters,
/// computes or invalidates.
pub trait FunctionAnalysisRegistrationCallback {
    /// Payload type of the analysis cache.
    type Value;

    /// Registers this plugin's function analyses with the manager.
    fn register_analyses(
        &self,
        manager: &mut crate::analysis::FunctionAnalysisManager<Self::Value>,
    )
        requires
            old(manager).wf(),
        ensures
            final(manager).wf(),
            old(manager).registered().subset_of(final(manager).registered()),
            final(manager).computing() == old(manager).computing(),
            final(manager).history() == old(manager).history(),
            forall|k: crate::keys::AnalysisKey, u: usize|
                final(manager).cached_at(k, u) == old(manager).cached_at(k, u),
    ;
}

/// A callback fired at a module-pipeline extension point: it may push
/// passes onto the manager for that position, tuned by the requested
/// optimization level.
pub trait ModuleExtensionPointCallback {
    /// Fires the callback for one extension point.
    fn on_extension_point(&self, manager: &mut ModulePassManager, level: OptimizationLevel)
        requires
            old(manager).pipeline_len() < u64::MAX,
        ensures
            final(manager).pipeline_len() >= old(manager).pipeline_len(),
    ;
}

/// A callback fired at a function-pipeline extension point: it may
/// push passes onto the manager for that position, tuned by the
/// requested optimization level.
pub trait FunctionExtensionPointCallback {
    /// Fires the callback for one extension point.
    fn on_extension_point(&self, manager: &mut FunctionPassManager, level: OptimizationLevel)
        requires
            old(manager).pipeline_len() < u64::MAX,
        ensures
            final(manager).pipeline_len() >= old(manager).pipeline_len(),
    ;
}

/// Dispatches one textual pipeline element over module-pipeline
/// parsing callbacks: each is offered the name in registration order
/// until one claims it. If none claims it, the element is left to
/// other parsers and the manager is untouched; this is the sole
/// expected negative outcome of the parse path.
pub fn parse_module_pipeline_element<C: ModulePipelineParsingCallback>(
    callbacks: &Vec<C>,
    name: &[u8],
    manager: &mut ModulePassManager,
) -> (r: PipelineParsing)
    requires
        old(manager).pipeline_len() < u64::MAX,
    ensures
        (r is Parsed) == exists|i: int|
            0 <= i < callbacks@.len() && (#[trigger] callbacks@[i]).claims(name@),
        (r is NotParsed) ==> *final(manager) == *old(manager),
        final(manager).pipeline_len() >= old(manager).pipeline_len(),
{
    let mut i: usize = 0;
    while i < callbacks.len()
        invariant
            i <= callbacks@.len(),
            *manager == *old(manager),
            old(manager).pipeline_len() < u64::MAX,
            forall|j: int| 0 <= j < i ==> !(#[trigger] callbacks@[j]).claims(name@),
        decreases callbacks@.len() - i,
    {
        let r = callbacks[i].try_parse(name, manager);
        match r {
            PipelineParsing::Parsed => {
                return PipelineParsing::Parsed;
            },
            PipelineParsing::NotParsed => {},
        }
        i = i + 1;
    }
    proof {
        if exists|j: int| 0 <= j < callbacks@.len() && (#[trigger] callbacks@[j]).claims(name@) {
            let j = choose|j: int|
                0 <= j < callbacks@.len() && (#[trigger] callbacks@[j]).claims(name@);
            assert(false);
        }
    }
    PipelineParsing::NotParsed
}

/// Dispatches one textual pipeline element over function-pipeline
/// parsing callbacks: each is offered the name in registration order
/// until one claims it. If none claims it, the element is left to
/// other parsers and the manager is untouched.
pub fn parse_function_pipeline_element<C: FunctionPipelineParsingCallback>(
    callbacks: &Vec<C>,
    name: &[u8],
    manager: &mut FunctionPassManager,
) -> (r: PipelineParsing)
    requires
        old(manager).pipeline_len() < u64::MAX,
    ensures
        (r is Parsed) == exists|i: int|
            0 <= i < callbacks@.len() && (#[trigger] callbacks@[i]).claims(name@),
        (r is NotParsed) ==> *final(manager) == *old(manager),
        final(manager).pipeline_len() >= old(manager).pipeline_len(),
{
    let mut i: usize = 0;
    while i < callbacks.len()
        invariant
            i <= callbacks@.len(),
            *manager == *old(manager),
            old(manager).pipeline_len() < u64::MAX,
            forall|j: int| 0 <= j < i ==> !(#[trigger] callbacks@[j]).claims(name@),
        decreases callbacks@.len() - i,
    {
        let r = callbacks[i].try_parse(name, manager);
        match r {
            PipelineParsing::Parsed => {
                return PipelineParsing::Parsed;
            },
            PipelineParsing::NotParsed => {},
        }
        i = i + 1;
    }
    proof {
        if exists|j: int| 0 <= j < callbacks@.len() && (#[trigger] callbacks@[j]).claims(name@) {
            let j = choose|j: int|
                0 <= j < callbacks@.len() && (#[trigger] callbacks@[j]).claims(name@);
            assert(false);
        }
    }
    PipelineParsing::NotParsed
}

/// Compares two byte strings for equality.
pub fn bytes_equal(a: &[u8], b: &[u8]) -> (r: bool)
    ensures
        r == (a@ == b@),
{
    if a.len() != b.len() {
        return false;
    }
    let mut i: usize = 0;
    while i < a.len()
        invariant
            a@.len() == b@.len(),
            i <= a@.len(),
            forall|j: int| 0 <= j < i ==> a@[j] == b@[j],
        decreases a@.len() - i,
    {
        if a[i] != b[i] {
            return false;
        }
        i = i + 1;
    }
    proof {
        assert(a@ =~= b@);
    }
    true
}

/// The canonical module pipeline-parsing callback: it claims exactly
/// one pass name and appends exactly one instance of its pass to the
/// manager when it does.
pub struct TokenModulePassCallback<P> {
    /// The pass name this callback recognizes.
    pub token: Vec<u8>,
    /// The pass appended for each claimed occurrence of the token.
    pub pass: P,
}

impl<P: LlvmModulePass + Copy> ModulePipelineParsingCallback for TokenModulePassCallback<P> {
    open spec fn claims(&self, name: Seq<u8>) -> bool {
        name == self.token@
    }

    fn try_parse(&self, name: &[u8], manager: &mut ModulePassManager) -> (r: PipelineParsing)
        ensures
            self.claims(name@) ==> final(manager).pipeline_len() == old(manager).pipeline_len()
                + 1,
    {
        if bytes_equal(name, self.token.as_slice()) {
            manager.add_pass(self.pass);
            PipelineParsing::Parsed
        } else {
            PipelineParsing::NotParsed
        }
    }
}

/// The canonical function pipeline-parsing callback: it claims
/// exactly one pass name and appends exactly one instance of its pass
/// to the manager when it does.
pub struct TokenFunctionPassCallback<P> {
    /// The pass name this callback recognizes.
    pub token: Vec<u8>,
    /// The pass appended for each claimed occurrence of the token.
    pub pass: P,
}

impl<P: LlvmFunctionPass + Copy> FunctionPipelineParsingCallback for TokenFunctionPassCallback<
    P,
> {
    open spec fn claims(&self, name: Seq<u8>) -> bool {
        name == self.token@
    }

    fn try_parse(&self, name: &[u8], manager: &mut FunctionPassManager) -> (r: PipelineParsing)
        ensures
            self.claims(name@) ==> final(manager).pipeline_len() == old(manager).pipeline_len()
                + 1,
    {
        if bytes_equal(name, self.token.as_slice()) {
            manager.add_pass(self.pass);
            PipelineParsing::Parsed
        } else {
            PipelineParsing::NotParsed
        }
    }
}

/// The entry object the host supplies once at plugin load: callback
/// registration per category. Registering transfers the callback to
/// the host and cannot fail; the count of callbacks the host holds in
/// each category is what this surface tracks.
pub struct PassBuilder {
    /// Callbacks parsing module-pipeline elements.
    pub module_pipeline_parsing: u64,
    /// Callbacks parsing function-pipeline elements.
    pub function_pipeline_parsing: u64,
    /// Callbacks registering module analyses.
    pub module_analysis_registration: u64,
    /// Callbacks registering function analyses.
    pub function_analysis_registration: u64,
    /// Callbacks at the peephole extension point.
    pub peephole: u64,
    /// Callbacks at the late scalar-optimizer extension point.
    pub scalar_optimizer_late: u64,
    /// Callbacks at the vectorizer-start extension point.
    pub vectorizer_start: u64,
    /// Callbacks at the pipeline-start extension point.
    pub pipeline_start: u64,
    /// Callbacks at the early-simplification extension point.
    pub pipeline_early_simplification: u64,
    /// Callbacks at the optimizer-last extension point.
    pub optimizer_last: u64,
    /// Callbacks at the early full-link-time-optimization extension
    /// point.
    pub full_lto_early: u64,
    /// Callbacks at the last full-link-time-optimization extension
    /// point.
    pub full_lto_last: u64,
    /// Callbacks at the optimizer-early extension point.
    pub optimizer_early: u64,
}

impl PassBuilder {
    /// A builder with no callbacks registered yet.
    pub fn new() -> (r: PassBuilder)
        ensures
            r == (PassBuilder {
                module_pipeline_parsing: 0,
                function_pipeline_parsing: 0,
                module_analysis_registration: 0,
                function_analysis_registration: 0,
                peephole: 0,
                scalar_optimizer_late: 0,
                vectorizer_start: 0,
                pipeline_start: 0,
                pipeline_early_simplification: 0,
                optimizer_last: 0,
                full_lto_early: 0,
                full_lto_last: 0,
                optimizer_early: 0,
            }),
    {
        PassBuilder {
            module_pipeline_parsing: 0,
            function_pipeline_parsing: 0,
            module_analysis_registration: 0,
            function_analysis_registration: 0,
            peephole: 0,
            scalar_optimizer_late: 0,
            vectorizer_start: 0,
            pipeline_start: 0,
            pipeline_early_simplification: 0,
            optimizer_last: 0,
            full_lto_early: 0,
            full_lto_last: 0,
            optimizer_early: 0,
        }
    }

    /// Registers a callback for parsing module-pipeline elements. The
    /// host offers such callbacks each pipeline element in
    /// registration order.
    #[allow(unused_variables)]
    pub fn add_module_pipeline_parsing_callback<C: ModulePipelineParsingCallback>(
        &mut self,
        cb: C,
    )
        requires
            old(self).module_pipeline_parsing < u64::MAX,
        ensures
            *final(self) == (PassBuilder {
                module_pipeline_parsing: (old(self).module_pipeline_parsing + 1) as u64,
                ..*old(self)
            }),
    {
        self.module_pipeline_parsing = self.module_pipeline_parsing + 1;
    }

    /// Registers a callback for parsing function-pipeline elements.
    /// The host offers such callbacks each pipeline element in
    /// registration order.
    #[allow(unused_variables)]
    pub fn add_function_pipeline_parsing_callback<C: FunctionPipelineParsingCallback>(
        &mut self,
        cb: C,
    )
        requires
            old(self).function_pipeline_parsing < u64::MAX,
        ensures
            *final(self) == (PassBuilder {
                function_pipeline_parsing: (old(self).function_pipeline_parsing + 1) as u64,
                ..*old(self)
            }),
    {
        self.function_pipeline_parsing = self.function_pipeline_parsing + 1;
    }

    /// Registers a callback invoked when the host sets up a module
    /// analysis manager, so the plugin can register its module
    /// analyses.
    #[allow(unused_variables)]
    pub fn add_module_analysis_registration_callback<C: ModuleAnalysisRegistrationCallback>(
        &mut self,
        cb: C,
    )
        requires
            old(self).module_analysis_registration < u64::MAX,
        ensures
            *final(self) == (PassBuilder {
                module_analysis_registration: (old(self).module_analysis_registration + 1) as u64,
                ..*old(self)
            }),
    {
        self.module_analysis_registration = self.module_analysis_registration + 1;
    }

    /// Registers a callback invoked when the host sets up a function
    /// analysis manager, so the plugin can register its function
    /// analyses.
    #[allow(unused_variables)]
    pub fn add_function_analysis_registration_callback<C: FunctionAnalysisRegistrationCallback>(
        &mut self,
        cb: C,
    )
        requires
            old(self).function_analysis_registration < u64::MAX,
        ensures
            *final(self) == (PassBuilder {
                function_analysis_registration: (old(self).function_analysis_registration + 1) as u64,
                ..*old(self)
            }),
    {
        self.function_analysis_registration = self.function_analysis_registration + 1;
    }

    /// Registers a callback fired at the peephole extension point,
    /// after each instance of the host's instruction combiner.
    #[allow(unused_variables)]
    pub fn add_peephole_ep_callback<C: FunctionExtensionPointCallback>(&mut self, cb: C)
        requires
            old(self).peephole < u64::MAX,
        ensures
            *final(self) == (PassBuilder { peephole: (old(self).peephole + 1) as u64, ..*old(self) }),
    {
        self.peephole = self.peephole + 1;
    }

    /// Registers a callback fired after most of the main
    /// optimizations, before the last cleanup optimizations.
    #[allow(unused_variables)]
    pub fn add_scalar_optimizer_late_ep_callback<C: FunctionExtensionPointCallback>(
        &mut self,
        cb: C,
    )
        requires
            old(self).scalar_optimizer_late < u64::MAX,
        ensures
            *final(self) == (PassBuilder {
                scalar_optimizer_late: (old(self).scalar_optimizer_late + 1) as u64,
                ..*old(self)
            }),
    {
        self.scalar_optimizer_late = self.scalar_optimizer_late + 1;
    }

    /// Registers a callback fired before the vectorizer and other
    /// highly target-specific optimizations run.
    #[allow(unused_variables)]
    pub fn add_vectorizer_start_ep_callback<C: FunctionExtensionPointCallback>(&mut self, cb: C)
        requires
            old(self).vectorizer_start < u64::MAX,
        ensures
            *final(self) == (PassBuilder {
                vectorizer_start: (old(self).vectorizer_start + 1) as u64,
                ..*old(self)
            }),
    {
        self.vectorizer_start = self.vectorizer_start + 1;
    }

    /// Registers a callback fired once at the start of the pipeline.
    /// Not fired for link-time backend pipelines.
    #[allow(unused_variables)]
    pub fn add_pipeline_start_ep_callback<C: ModuleExtensionPointCallback>(&mut self, cb: C)
        requires
            old(self).pipeline_start < u64::MAX,
        ensures
            *final(self) == (PassBuilder {
                pipeline_start: (old(self).pipeline_start + 1) as u64,
                ..*old(self)
            }),
    {
        self.pipeline_start = self.pipeline_start + 1;
    }

    /// Registers a callback fired right after the passes that do basic
    /// simplification of the input IR.
    #[allow(unused_variables)]
    pub fn add_pipeline_early_simplification_ep_callback<C: ModuleExtensionPointCallback>(
        &mut self,
        cb: C,
    )
        requires
            old(self).pipeline_early_simplification < u64::MAX,
        ensures
            *final(self) == (PassBuilder {
                pipeline_early_simplification: (old(self).pipeline_early_simplification + 1) as u64,
                ..*old(self)
            }),
    {
        self.pipeline_early_simplification = self.pipeline_early_simplification + 1;
    }

    /// Registers a callback fired after everything else in the
    /// pipeline.
    #[allow(unused_variables)]
    pub fn add_optimizer_last_ep_callback<C: ModuleExtensionPointCallback>(&mut self, cb: C)
        requires
            old(self).optimizer_last < u64::MAX,
        ensures
            *final(self) == (PassBuilder {
                optimizer_last: (old(self).optimizer_last + 1) as u64,
                ..*old(self)
            }),
    {
        self.optimizer_last = self.optimizer_last + 1;
    }

    /// Registers a callback fired at link time, before full link-time
    /// optimization.
    #[allow(unused_variables)]
    pub fn add_full_lto_early_ep_callback<C: ModuleExtensionPointCallback>(&mut self, cb: C)
        requires
            old(self).full_lto_early < u64::MAX,
        ensures
            *final(self) == (PassBuilder {
                full_lto_early: (old(self).full_lto_early + 1) as u64,
                ..*old(self)
            }),
    {
        self.full_lto_early = self.full_lto_early + 1;
    }

    /// Registers a callback fired at link time, after full link-time
    /// optimization.
    #[allow(unused_variables)]
    pub fn add_full_lto_last_ep_callback<C: ModuleExtensionPointCallback>(&mut self, cb: C)
        requires
            old(self).full_lto_last < u64::MAX,
        ensures
            *final(self) == (PassBuilder {
                full_lto_last: (old(self).full_lto_last + 1) as u64,
                ..*old(self)
            }),
    {
        self.full_lto_last = self.full_lto_last + 1;
    }

    /// Registers a callback fired just before the main module-level
    /// optimization passes.
    #[allow(unused_variables)]
    pub fn add_optimizer_early_ep_callback<C: ModuleExtensionPointCallback>(&mut self, cb: C)
        requires
            old(self).optimizer_early < u64::MAX,
        ensures
            *final(self) == (PassBuilder {
                optimizer_early: (old(self).optimizer_early + 1) as u64,
                ..*old(self)
            }),
    {
        self.optimizer_early = self.optimizer_early + 1;
    }
}

} // verus!
