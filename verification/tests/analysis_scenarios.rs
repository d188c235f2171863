//! End-to-end scenarios over the analysis managers: compute-once
//! caching, invalidation after a non-preserving pass, and duplicate
//! registration.

use std::cell::Cell;
use std::rc::Rc;

use llvm_plugin::pass_manager::run_module_pass;
use llvm_plugin::{
    FunctionAnalysisManager, FunctionAnalysisManagerProxy, FunctionHandle, LlvmFunctionAnalysis,
    LlvmModuleAnalysis, LlvmModulePass, ModuleAnalysisManager, ModuleHandle, PreservedAnalyses,
};

/// A module analysis computing the "number of basic blocks" of a
/// module, with an external observation point counting invocations.
struct BlockCountAnalysis {
    runs: Rc<Cell<u64>>,
    blocks: u64,
}

impl LlvmModuleAnalysis for BlockCountAnalysis {
    type Output = u64;

    // the trait's ghost identifier function compiles to an ordinary
    // trait item; it is never called at run time
    fn id_spec() -> u64 {
        1
    }

    fn id() -> u64 {
        1
    }

    fn run_analysis(
        &self,
        _module: ModuleHandle,
        _manager: &mut ModuleAnalysisManager<u64>,
    ) -> u64 {
        self.runs.set(self.runs.get() + 1);
        self.blocks
    }
}

/// A pass that queries the block-count analysis and records what it
/// observed.
struct QueryingPass {
    analysis: BlockCountAnalysis,
    observed: Rc<Cell<u64>>,
}

impl LlvmModulePass for QueryingPass {
    type Value = u64;

    fn run_pass(
        &self,
        module: ModuleHandle,
        manager: &mut ModuleAnalysisManager<u64>,
    ) -> PreservedAnalyses {
        let r = manager.get_result(&self.analysis, module);
        self.observed.set(r);
        PreservedAnalyses::All
    }
}

/// A pass standing for an IR mutation (adding a call instruction): it
/// reports that it preserved nothing.
struct MutatingPass;

impl LlvmModulePass for MutatingPass {
    type Value = u64;

    fn run_pass(
        &self,
        _module: ModuleHandle,
        _manager: &mut ModuleAnalysisManager<u64>,
    ) -> PreservedAnalyses {
        PreservedAnalyses::Nothing
    }
}

fn counting_analysis(runs: &Rc<Cell<u64>>, blocks: u64) -> BlockCountAnalysis {
    BlockCountAnalysis { runs: Rc::clone(runs), blocks }
}

#[test]
fn first_query_computes_second_hits_cache() {
    let runs = Rc::new(Cell::new(0));
    let module = ModuleHandle::from_address(0x1000);
    let mut manager: ModuleAnalysisManager<u64> = ModuleAnalysisManager::new();
    manager.register_pass(counting_analysis(&runs, 7));

    let first = manager.get_result(&counting_analysis(&runs, 7), module);
    assert_eq!(first, 7);
    assert_eq!(runs.get(), 1);

    let second = manager.get_result(&counting_analysis(&runs, 7), module);
    assert_eq!(second, 7);
    assert_eq!(runs.get(), 1);

    let cached = manager.get_cached_result::<BlockCountAnalysis>(module);
    assert_eq!(cached, Some(7));
    assert_eq!(runs.get(), 1);
}

#[test]
fn cached_result_is_per_unit() {
    let runs = Rc::new(Cell::new(0));
    let first_module = ModuleHandle::from_address(0x1000);
    let other_module = ModuleHandle::from_address(0x2000);
    let mut manager: ModuleAnalysisManager<u64> = ModuleAnalysisManager::new();
    manager.register_pass(counting_analysis(&runs, 3));

    assert_eq!(manager.get_result(&counting_analysis(&runs, 3), first_module), 3);
    assert_eq!(runs.get(), 1);
    assert_eq!(manager.get_result(&counting_analysis(&runs, 3), other_module), 3);
    assert_eq!(runs.get(), 2);
    assert_eq!(manager.get_result(&counting_analysis(&runs, 3), first_module), 3);
    assert_eq!(runs.get(), 2);
}

#[test]
fn non_preserving_pass_invalidates_and_forces_recompute() {
    let runs = Rc::new(Cell::new(0));
    let module = ModuleHandle::from_address(0x3000);
    let mut manager: ModuleAnalysisManager<u64> = ModuleAnalysisManager::new();
    manager.register_pass(counting_analysis(&runs, 5));

    assert_eq!(manager.get_result(&counting_analysis(&runs, 5), module), 5);
    assert_eq!(runs.get(), 1);

    let signal = run_module_pass(&MutatingPass, module, &mut manager);
    assert!(matches!(signal, PreservedAnalyses::Nothing));

    // the cache for this module is gone ...
    assert_eq!(manager.get_cached_result::<BlockCountAnalysis>(module), None);

    // ... and the next query recomputes
    assert_eq!(manager.get_result(&counting_analysis(&runs, 5), module), 5);
    assert_eq!(runs.get(), 2);
}

#[test]
fn preserving_pass_keeps_cache() {
    let runs = Rc::new(Cell::new(0));
    let observed = Rc::new(Cell::new(0));
    let module = ModuleHandle::from_address(0x4000);
    let mut manager: ModuleAnalysisManager<u64> = ModuleAnalysisManager::new();
    manager.register_pass(counting_analysis(&runs, 9));

    let pass = QueryingPass {
        analysis: counting_analysis(&runs, 9),
        observed: Rc::clone(&observed),
    };
    let signal = run_module_pass(&pass, module, &mut manager);
    assert!(matches!(signal, PreservedAnalyses::All));
    assert_eq!(observed.get(), 9);
    assert_eq!(runs.get(), 1);

    assert_eq!(manager.get_cached_result::<BlockCountAnalysis>(module), Some(9));
}

#[test]
fn two_sequential_passes_share_one_computation() {
    let runs = Rc::new(Cell::new(0));
    let first_observed = Rc::new(Cell::new(0));
    let second_observed = Rc::new(Cell::new(0));
    let module = ModuleHandle::from_address(0x5000);
    let mut manager: ModuleAnalysisManager<u64> = ModuleAnalysisManager::new();
    manager.register_pass(counting_analysis(&runs, 11));

    let first_pass = QueryingPass {
        analysis: counting_analysis(&runs, 11),
        observed: Rc::clone(&first_observed),
    };
    let second_pass = QueryingPass {
        analysis: counting_analysis(&runs, 11),
        observed: Rc::clone(&second_observed),
    };
    run_module_pass(&first_pass, module, &mut manager);
    run_module_pass(&second_pass, module, &mut manager);

    // computed once, both passes observe the identical count
    assert_eq!(runs.get(), 1);
    assert_eq!(first_observed.get(), 11);
    assert_eq!(second_observed.get(), 11);
}

#[test]
fn duplicate_registration_is_refused() {
    let runs = Rc::new(Cell::new(0));
    let mut manager: ModuleAnalysisManager<u64> = ModuleAnalysisManager::new();

    let first = manager.try_register_pass(counting_analysis(&runs, 2));
    assert!(first);

    // registering the same analysis type twice on one manager is the
    // fatal contract violation, reported rather than silently ignored
    let second = manager.try_register_pass(counting_analysis(&runs, 2));
    assert!(!second);
}

/// A function analysis counting its invocations.
struct InstructionCountAnalysis {
    runs: Rc<Cell<u64>>,
    instructions: u64,
}

impl LlvmFunctionAnalysis for InstructionCountAnalysis {
    type Output = u64;

    // never called at run time; see BlockCountAnalysis
    fn id_spec() -> u64 {
        2
    }

    fn id() -> u64 {
        2
    }

    fn run_analysis(
        &self,
        _function: FunctionHandle,
        _manager: &mut FunctionAnalysisManager<u64>,
    ) -> u64 {
        self.runs.set(self.runs.get() + 1);
        self.instructions
    }
}

#[test]
fn function_manager_caches_like_module_manager() {
    let runs = Rc::new(Cell::new(0));
    let function = FunctionHandle::from_address(0x6000);
    let mut manager: FunctionAnalysisManager<u64> = FunctionAnalysisManager::new();
    manager.register_pass(InstructionCountAnalysis { runs: Rc::clone(&runs), instructions: 42 });

    let a = InstructionCountAnalysis { runs: Rc::clone(&runs), instructions: 42 };
    assert_eq!(manager.get_result(&a, function), 42);
    assert_eq!(manager.get_result(&a, function), 42);
    assert_eq!(runs.get(), 1);
    assert_eq!(manager.get_cached_result::<InstructionCountAnalysis>(function), Some(42));
}

#[test]
fn proxy_hands_out_the_wrapped_manager() {
    let runs = Rc::new(Cell::new(0));
    let function = FunctionHandle::from_address(0x7000);
    let mut inner: FunctionAnalysisManager<u64> = FunctionAnalysisManager::new();
    inner.register_pass(InstructionCountAnalysis { runs: Rc::clone(&runs), instructions: 8 });
    let a = InstructionCountAnalysis { runs: Rc::clone(&runs), instructions: 8 };
    inner.get_result(&a, function);

    let proxy = FunctionAnalysisManagerProxy::from_manager(inner);
    let manager = proxy.get_manager();
    assert_eq!(manager.get_cached_result::<InstructionCountAnalysis>(function), Some(8));
}

#[test]
fn is_registered_and_is_computing_report_state() {
    let runs = Rc::new(Cell::new(0));
    let mut manager: ModuleAnalysisManager<u64> = ModuleAnalysisManager::new();
    assert!(!manager.is_registered::<BlockCountAnalysis>());
    manager.register_pass(counting_analysis(&runs, 1));
    assert!(manager.is_registered::<BlockCountAnalysis>());
    assert!(!manager.is_computing::<BlockCountAnalysis>());
}
