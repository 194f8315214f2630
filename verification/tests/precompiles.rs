use alloy_primitives::Bytes;
use aot_handler::aot_precompiles::{
    entry_result, AotPrecompiles, RunAction, RunEvent, RunState, ENTRY_OUTPUT_LEN, ENTRY_SYMBOL,
};
use aot_handler::engine::{CallInput, CallInputs, Gas, InstructionResult};
use libloading::Library;
use std::path::PathBuf;
use std::sync::Arc;

const TARGET: [u8; 32] = [0x11; 32];

fn provider() -> AotPrecompiles<u8> {
    AotPrecompiles::new(42, TARGET, PathBuf::from("/lib/contract.so"))
}

fn library() -> Library {
    libloading::os::unix::Library::this().into()
}

fn call(input: CallInput) -> CallInputs {
    CallInputs { input, gas_limit: 1000, bytecode_address: [0xaa; 20] }
}

fn bytes(data: &[u8]) -> CallInput {
    CallInput::Bytes(Bytes::copy_from_slice(data))
}

/// Takes a call to the code with the target hash as far as the lookup of the entry.
fn to_symbol(provider: &mut AotPrecompiles<u8>, inputs: &CallInputs) {
    let (state, action) = provider.run(inputs, RunEvent::Begin);
    assert_eq!(state, RunState::AccountCode);
    assert!(matches!(action, RunAction::LoadAccountCode(a) if a == [0xaa; 20]));
    let (state, action) = provider.run(inputs, RunEvent::AccountCode(Some(TARGET)));
    assert_eq!(state, RunState::Library);
    match action {
        RunAction::OpenLibrary(path) => assert_eq!(*path, PathBuf::from("/lib/contract.so")),
        other => panic!("{:?}", other),
    }
    let (state, action) = provider.run(inputs, RunEvent::LibraryOpened(Ok(library())));
    assert_eq!(state, RunState::Symbol);
    assert!(matches!(action, RunAction::FindSymbol(name) if &name == b"custom"));
}

#[test]
fn new_provider_has_no_library() {
    let provider = provider();
    assert_eq!(provider.inner, 42);
    assert_eq!(provider.target_hash, TARGET);
    assert_eq!(*provider.so_path, PathBuf::from("/lib/contract.so"));
    assert!(provider.lib.get().is_none());
    assert_eq!(&ENTRY_SYMBOL, b"custom");
    assert_eq!(ENTRY_OUTPUT_LEN, 32);
}

#[test]
fn other_code_hash_is_delegated() {
    let mut provider = provider();
    let inputs = call(bytes(&[1]));
    let mut almost = TARGET;
    almost[31] = 0x12;
    let (state, _) = provider.run(&inputs, RunEvent::Begin);
    let (state, action) = provider.run(&inputs, RunEvent::AccountCode(Some(almost)));
    assert_eq!(state, RunState::Finished);
    assert!(matches!(action, RunAction::Delegate));
    assert!(provider.lib.get().is_none());
}

#[test]
fn account_that_cannot_be_loaded_is_delegated() {
    let mut provider = provider();
    let inputs = call(bytes(&[1]));
    let (state, action) = provider.run(&inputs, RunEvent::AccountCode(None));
    assert_eq!(state, RunState::Finished);
    assert!(matches!(action, RunAction::Delegate));
}

#[test]
fn target_call_is_answered_by_the_entry() {
    let mut provider = provider();
    let inputs = call(bytes(&[0xab, 0xcd]));
    to_symbol(&mut provider, &inputs);
    let (state, action) = provider.run(&inputs, RunEvent::SymbolFound(Ok(())));
    assert_eq!(state, RunState::Entry);
    let mut out = match action {
        RunAction::CallEntry { input, out } => {
            let mut expected = [0u8; 32];
            expected[30] = 0xab;
            expected[31] = 0xcd;
            assert_eq!(input, expected);
            assert_eq!(out, vec![0u8; 32]);
            out
        }
        other => panic!("{:?}", other),
    };
    out[0] = 9;
    out[1] = 8;
    let (state, action) =
        provider.run(&inputs, RunEvent::EntryReturned { status: 2, out });
    assert_eq!(state, RunState::Finished);
    match action {
        RunAction::Finish(Ok(Some(result))) => {
            assert_eq!(result.result, InstructionResult::Return);
            assert_eq!(result.output.as_ref(), &[9, 8]);
            assert_eq!(result.gas, Gas::new(1000));
        }
        other => panic!("{:?}", other),
    }
}

#[test]
fn library_that_does_not_open_fails_the_call() {
    let mut provider = provider();
    let inputs = call(bytes(&[]));
    let (state, action) = provider.run(
        &inputs,
        RunEvent::LibraryOpened(Err("no such file".to_string())),
    );
    assert_eq!(state, RunState::Finished);
    match action {
        RunAction::Finish(Err(text)) => assert_eq!(text, "load so failed: no such file"),
        other => panic!("{:?}", other),
    }
    assert!(provider.lib.get().is_none());
}

#[test]
fn missing_entry_fails_the_call() {
    let mut provider = provider();
    let inputs = call(bytes(&[]));
    to_symbol(&mut provider, &inputs);
    let (state, action) = provider.run(
        &inputs,
        RunEvent::SymbolFound(Err("undefined symbol".to_string())),
    );
    assert_eq!(state, RunState::Finished);
    match action {
        RunAction::Finish(Err(text)) => assert_eq!(text, "dlsym custom failed: undefined symbol"),
        other => panic!("{:?}", other),
    }
}

#[test]
fn shared_input_is_read_from_shared_memory() {
    let mut provider = provider();
    let inputs = call(CallInput::SharedBuffer(4..9));
    to_symbol(&mut provider, &inputs);
    let (state, action) = provider.run(&inputs, RunEvent::SymbolFound(Ok(())));
    assert_eq!(state, RunState::SharedBuffer);
    assert!(matches!(action, RunAction::ReadSharedBuffer(range) if range == (4..9)));
    let (state, action) =
        provider.run(&inputs, RunEvent::SharedBuffer(Some(vec![1, 2, 3, 4, 5])));
    assert_eq!(state, RunState::Entry);
    match action {
        RunAction::CallEntry { input, .. } => assert_eq!(&input[27..], &[1, 2, 3, 4, 5]),
        other => panic!("{:?}", other),
    }
}

#[test]
fn missing_shared_range_is_empty_input() {
    let mut provider = provider();
    let inputs = call(CallInput::SharedBuffer(4..9));
    let (state, action) =
        provider.run(&inputs, RunEvent::SharedBuffer(None));
    assert_eq!(state, RunState::Entry);
    match action {
        RunAction::CallEntry { input, .. } => assert_eq!(input, [0; 32]),
        other => panic!("{:?}", other),
    }
}

#[test]
fn open_library_is_not_opened_again() {
    let mut provider = provider();
    let inputs = call(bytes(&[]));
    to_symbol(&mut provider, &inputs);
    let first = Arc::clone(provider.lib.get().unwrap());
    let (state, action) =
        provider.run(&inputs, RunEvent::AccountCode(Some(TARGET)));
    assert_eq!(state, RunState::Symbol);
    assert!(matches!(action, RunAction::FindSymbol(_)));
    let (state, _) =
        provider.run(&inputs, RunEvent::LibraryOpened(Ok(library())));
    assert_eq!(state, RunState::Symbol);
    assert!(Arc::ptr_eq(&first, provider.lib.get().unwrap()));
}

#[test]
fn clone_shares_the_library() {
    let mut provider = provider();
    let inputs = call(bytes(&[]));
    to_symbol(&mut provider, &inputs);
    let copy = provider.clone();
    assert_eq!(copy.inner, 42);
    assert_eq!(copy.target_hash, TARGET);
    assert_eq!(copy.so_path, provider.so_path);
    assert!(Arc::ptr_eq(copy.lib.get().unwrap(), provider.lib.get().unwrap()));
}

#[test]
fn zero_status_returns_all_of_the_output() {
    let result = entry_result(0, vec![5; 32], 7);
    assert_eq!(result.result, InstructionResult::Return);
    assert_eq!(result.output.as_ref(), &[5; 32]);
    assert_eq!(result.gas.limit, 7);
    assert_eq!(result.gas.remaining, 7);
    assert_eq!(result.gas.refunded, 0);
}

#[test]
fn positive_status_cuts_the_output() {
    let result = entry_result(31, vec![5; 32], 7);
    assert_eq!(result.result, InstructionResult::Return);
    assert_eq!(result.output.as_ref(), &[5; 31]);
}

#[test]
fn status_beyond_the_output_keeps_all_of_it() {
    assert_eq!(entry_result(32, vec![5; 32], 7).output.len(), 32);
    assert_eq!(entry_result(i32::MAX, vec![5; 32], 7).output.len(), 32);
}

#[test]
fn negative_status_reverts_with_the_output() {
    let result = entry_result(-1, vec![5; 32], 7);
    assert_eq!(result.result, InstructionResult::Revert);
    assert_eq!(result.output.as_ref(), &[5; 32]);
    assert_eq!(result.gas.remaining, 7);
    assert_eq!(entry_result(i32::MIN, vec![5; 32], 7).result, InstructionResult::Revert);
}

#[test]
fn run_takes_six_steps_at_most() {
    let mut provider = provider();
    let inputs = call(CallInput::SharedBuffer(0..1));
    to_symbol(&mut provider, &inputs);
    let (state, _) = provider.run(&inputs, RunEvent::SymbolFound(Ok(())));
    let (state, _) = provider.run(&inputs, RunEvent::SharedBuffer(Some(vec![1])));
    let (state, _) =
        provider.run(&inputs, RunEvent::EntryReturned { status: 0, out: vec![0; 32] });
    assert_eq!(state, RunState::Finished);
}
