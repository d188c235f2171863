//! Pipeline-parsing dispatch and the pass manager surface.

use llvm_plugin::pass_builder::{
    bytes_equal, parse_function_pipeline_element, parse_module_pipeline_element,
    TokenFunctionPassCallback, TokenModulePassCallback,
};
use llvm_plugin::{
    FunctionAnalysisManager, FunctionHandle, FunctionPassManager, LlvmFunctionPass,
    LlvmModulePass, ModuleAnalysisManager, ModuleHandle, ModulePassManager, PipelineParsing,
    PreservedAnalyses,
};

#[derive(Clone, Copy)]
struct NopModulePass;

impl LlvmModulePass for NopModulePass {
    type Value = u64;

    fn run_pass(
        &self,
        _module: ModuleHandle,
        _manager: &mut ModuleAnalysisManager<u64>,
    ) -> PreservedAnalyses {
        PreservedAnalyses::All
    }
}

#[derive(Clone, Copy)]
struct NopFunctionPass;

impl LlvmFunctionPass for NopFunctionPass {
    type Value = u64;

    fn run_pass(
        &self,
        _function: FunctionHandle,
        _manager: &mut FunctionAnalysisManager<u64>,
    ) -> PreservedAnalyses {
        PreservedAnalyses::All
    }
}

#[test]
fn recognized_token_is_parsed_and_appends_one_pass() {
    let callbacks = vec![TokenModulePassCallback {
        token: b"mypass".to_vec(),
        pass: NopModulePass,
    }];
    let mut manager = ModulePassManager::new();
    assert!(manager.is_empty());

    let outcome = parse_module_pipeline_element(&callbacks, b"mypass", &mut manager);
    assert!(matches!(outcome, PipelineParsing::Parsed));
    assert_eq!(manager.len(), 1);
    assert!(!manager.is_empty());
}

#[test]
fn unknown_token_is_not_parsed_and_appends_nothing() {
    let callbacks = vec![TokenModulePassCallback {
        token: b"mypass".to_vec(),
        pass: NopModulePass,
    }];
    let mut manager = ModulePassManager::new();

    let outcome = parse_module_pipeline_element(&callbacks, b"unknown-token", &mut manager);
    assert!(matches!(outcome, PipelineParsing::NotParsed));
    assert_eq!(manager.len(), 0);
    assert!(manager.is_empty());
}

#[test]
fn dispatch_tries_callbacks_in_registration_order() {
    let callbacks = vec![
        TokenModulePassCallback { token: b"first".to_vec(), pass: NopModulePass },
        TokenModulePassCallback { token: b"second".to_vec(), pass: NopModulePass },
    ];
    let mut manager = ModulePassManager::new();

    let outcome = parse_module_pipeline_element(&callbacks, b"second", &mut manager);
    assert!(matches!(outcome, PipelineParsing::Parsed));
    assert_eq!(manager.len(), 1);

    let outcome = parse_module_pipeline_element(&callbacks, b"third", &mut manager);
    assert!(matches!(outcome, PipelineParsing::NotParsed));
    assert_eq!(manager.len(), 1);
}

#[test]
fn function_pipeline_dispatch_mirrors_module_dispatch() {
    let callbacks = vec![TokenFunctionPassCallback {
        token: b"fn-pass".to_vec(),
        pass: NopFunctionPass,
    }];
    let mut manager = FunctionPassManager::new();

    let outcome = parse_function_pipeline_element(&callbacks, b"fn-pass", &mut manager);
    assert!(matches!(outcome, PipelineParsing::Parsed));
    assert_eq!(manager.len(), 1);

    let outcome = parse_function_pipeline_element(&callbacks, b"other", &mut manager);
    assert!(matches!(outcome, PipelineParsing::NotParsed));
    assert_eq!(manager.len(), 1);
}

#[test]
fn pass_managers_count_appended_passes() {
    let mut mpm = ModulePassManager::new();
    mpm.add_pass(NopModulePass);
    mpm.add_pass(NopModulePass);
    assert_eq!(mpm.len(), 2);

    let mut fpm = FunctionPassManager::new();
    assert!(fpm.is_empty());
    fpm.add_pass(NopFunctionPass);
    assert_eq!(fpm.len(), 1);
}

#[test]
fn bytes_equal_compares_contents() {
    assert!(bytes_equal(b"abc", b"abc"));
    assert!(!bytes_equal(b"abc", b"abd"));
    assert!(!bytes_equal(b"abc", b"abcd"));
    assert!(bytes_equal(b"", b""));
}
