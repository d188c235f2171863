//! Key minting, IR unit handles, and the pass builder's callback
//! registration surface.

use llvm_plugin::pass_builder::{
    FunctionAnalysisRegistrationCallback, FunctionExtensionPointCallback,
    ModuleAnalysisRegistrationCallback, ModuleExtensionPointCallback,
    ModulePipelineParsingCallback, OptimizationLevel, PipelineParsing,
};
use llvm_plugin::{
    FunctionAnalysisManager, FunctionHandle, FunctionPassManager, KeyRegistry,
    ModuleAnalysisManager, ModuleHandle, ModulePassManager, PassBuilder,
};

#[test]
fn minted_keys_are_distinct_and_minting_is_repeatable() {
    let mut registry = KeyRegistry::new();
    let k1 = registry.mint_key();
    let k2 = registry.mint_key();
    let k3 = registry.mint_key();
    assert_ne!(k1, k2);
    assert_ne!(k1, k3);
    assert_ne!(k2, k3);
}

#[test]
fn handles_compare_by_address() {
    let a = ModuleHandle::from_address(0x10);
    let b = ModuleHandle::from_address(0x10);
    let c = ModuleHandle::from_address(0x20);
    assert_eq!(a, b);
    assert_ne!(a, c);
    assert_eq!(a.addr, 0x10);

    let f = FunctionHandle::from_address(0x30);
    let g = FunctionHandle::from_address(0x30);
    assert_eq!(f, g);
    assert_eq!(f.addr, 0x30);
}

struct NopParsingCallback;

impl ModulePipelineParsingCallback for NopParsingCallback {
    // the trait's ghost claim set compiles to an ordinary trait item;
    // it is never called at run time
    fn claims(&self, _name: vstd::prelude::Seq<u8>) -> bool {
        false
    }

    fn try_parse(&self, _name: &[u8], _manager: &mut ModulePassManager) -> PipelineParsing {
        PipelineParsing::NotParsed
    }
}

struct NopModuleRegistration;

impl ModuleAnalysisRegistrationCallback for NopModuleRegistration {
    type Value = u64;

    fn register_analyses(&self, _manager: &mut ModuleAnalysisManager<u64>) {}
}

struct NopFunctionRegistration;

impl FunctionAnalysisRegistrationCallback for NopFunctionRegistration {
    type Value = u64;

    fn register_analyses(&self, _manager: &mut FunctionAnalysisManager<u64>) {}
}

struct NopModuleEp;

impl ModuleExtensionPointCallback for NopModuleEp {
    fn on_extension_point(&self, _manager: &mut ModulePassManager, _level: OptimizationLevel) {}
}

struct NopFunctionEp;

impl FunctionExtensionPointCallback for NopFunctionEp {
    fn on_extension_point(
        &self,
        _manager: &mut FunctionPassManager,
        _level: OptimizationLevel,
    ) {
    }
}

#[test]
fn builder_counts_each_registration_category() {
    let mut builder = PassBuilder::new();
    assert_eq!(builder.module_pipeline_parsing, 0);

    builder.add_module_pipeline_parsing_callback(NopParsingCallback);
    builder.add_module_analysis_registration_callback(NopModuleRegistration);
    builder.add_function_analysis_registration_callback(NopFunctionRegistration);
    builder.add_peephole_ep_callback(NopFunctionEp);
    builder.add_scalar_optimizer_late_ep_callback(NopFunctionEp);
    builder.add_vectorizer_start_ep_callback(NopFunctionEp);
    builder.add_pipeline_start_ep_callback(NopModuleEp);
    builder.add_pipeline_early_simplification_ep_callback(NopModuleEp);
    builder.add_optimizer_last_ep_callback(NopModuleEp);
    builder.add_full_lto_early_ep_callback(NopModuleEp);
    builder.add_full_lto_last_ep_callback(NopModuleEp);
    builder.add_optimizer_early_ep_callback(NopModuleEp);
    builder.add_optimizer_early_ep_callback(NopModuleEp);

    assert_eq!(builder.module_pipeline_parsing, 1);
    assert_eq!(builder.function_pipeline_parsing, 0);
    assert_eq!(builder.module_analysis_registration, 1);
    assert_eq!(builder.function_analysis_registration, 1);
    assert_eq!(builder.peephole, 1);
    assert_eq!(builder.scalar_optimizer_late, 1);
    assert_eq!(builder.vectorizer_start, 1);
    assert_eq!(builder.pipeline_start, 1);
    assert_eq!(builder.pipeline_early_simplification, 1);
    assert_eq!(builder.optimizer_last, 1);
    assert_eq!(builder.full_lto_early, 1);
    assert_eq!(builder.full_lto_last, 1);
    assert_eq!(builder.optimizer_early, 2);
}
