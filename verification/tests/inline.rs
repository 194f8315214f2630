use alloy_primitives::Bytes;
use aot_handler::engine::{
    CallInput, FrameInputs, Gas, InstructionResult, Interpreter, InterpreterAction,
    InterpreterResult, MemoryGas,
};
use aot_handler::ffi_bridge::FfiReturnData;
use aot_handler::inline_aot::{
    FrameAction, FrameEvent, FrameState, InlineAotEvm, Processed, ReplayAction, ReplayEvent,
    ResultAndState,
};
use aot_handler::inline_dl::{
    check_transfer, InlineDl, TryCallAction, TryCallEvent, TryCallState, OUTPUT_LEN, RETURN_CAP,
};
use libloading::Library;
use std::path::PathBuf;
use std::sync::Arc;

const CALLER: [u8; 20] = [1; 20];
const TARGET: [u8; 20] = [2; 20];
const CODE: [u8; 20] = [3; 20];

type Evm = InlineAotEvm<&'static str, u8>;
type Step = (TryCallState, TryCallAction<u32>);

fn library() -> Library {
    libloading::os::unix::Library::this().into()
}

fn dl() -> InlineDl {
    InlineDl::new(PathBuf::from("/lib/aot.so"), b"aot_entry")
}

fn transfer() -> Vec<u8> {
    let mut data = vec![0xa9, 0x05, 0x9c, 0xbb];
    data.extend_from_slice(&[7; 64]);
    data
}

fn gas() -> Gas {
    Gas {
        limit: 100,
        remaining: 60,
        refunded: -3,
        memory: MemoryGas { words_num: 2, expansion_cost: 6 },
    }
}

fn interp(data: &[u8]) -> Interpreter {
    Interpreter {
        input: FrameInputs {
            target_address: TARGET,
            bytecode_address: Some(CODE),
            input: CallInput::Bytes(Bytes::copy_from_slice(data)),
        },
        gas: gas(),
    }
}

fn to_entry(dl: &mut InlineDl, interp: &mut Interpreter) -> FfiReturnData {
    let (state, action): Step =
        dl.try_call(interp, TryCallEvent::Begin { caller: CALLER });
    assert_eq!(state, TryCallState::Accounts);
    assert!(matches!(action, TryCallAction::LoadAccounts(a) if a == [CODE, CALLER]));
    let (state, action): Step = dl.try_call(interp, TryCallEvent::AccountsLoaded);
    assert_eq!(state, TryCallState::Library);
    match action {
        TryCallAction::OpenLibrary(path) => assert_eq!(*path, PathBuf::from("/lib/aot.so")),
        other => panic!("{:?}", other),
    }
    let (state, action): Step =
        dl.try_call(interp, TryCallEvent::LibraryOpened(Ok(library())));
    assert_eq!(state, TryCallState::Symbol);
    assert!(matches!(action, TryCallAction::FindSymbol(name) if name == b"aot_entry"));
    let (state, action): Step = dl.try_call(interp, TryCallEvent::SymbolFound(true));
    assert_eq!(state, TryCallState::Entry);
    match action {
        TryCallAction::CallEntry { account, host, calldata, ret } => {
            assert_eq!(account, CODE);
            assert_eq!(host.target, TARGET);
            assert_eq!(calldata.data.as_ref(), transfer().as_slice());
            assert_eq!(ret.buf, vec![0u8; 64]);
            ret
        }
        other => panic!("{:?}", other),
    }
}

fn is_declined(step: &Step) -> bool {
    step.0 == TryCallState::Finished && matches!(step.1, TryCallAction::Return(None))
}

fn answer(written: i32) -> InterpreterResult {
    let mut dl = dl();
    let mut interp = interp(&transfer());
    let mut ret = to_entry(&mut dl, &mut interp);
    for i in 0..64 {
        ret.buf[i] = i as u8;
    }
    let (state, action): Step =
        dl.try_call(&mut interp, TryCallEvent::EntryReturned { written, ret });
    assert_eq!(state, TryCallState::Finished);
    match action {
        TryCallAction::Return(Some(InterpreterAction::Return(result))) => result,
        other => panic!("{:?}", other),
    }
}

#[test]
fn transfers_are_told_by_their_selector() {
    assert!(check_transfer(&CallInput::Bytes(Bytes::from(transfer()))));
    assert!(check_transfer(&CallInput::Bytes(Bytes::from(vec![0xa9, 0x05, 0x9c, 0xbb]))));
    assert!(!check_transfer(&CallInput::Bytes(Bytes::from(vec![0xa9, 0x05, 0x9c]))));
    assert!(!check_transfer(&CallInput::Bytes(Bytes::from(vec![0xa9, 0x05, 0x9c, 0xbc, 0]))));
    assert!(!check_transfer(&CallInput::Bytes(Bytes::new())));
    assert!(!check_transfer(&CallInput::SharedBuffer(0..68)));
}

#[test]
fn entry_answers_the_frame() {
    let result = answer(3);
    assert_eq!(result.result, InstructionResult::Return);
    assert_eq!(result.output.as_ref(), &[0, 1, 2]);
    assert_eq!(result.gas, gas());
}

#[test]
fn output_is_one_word_at_most() {
    assert_eq!(answer(0).output.len(), 0);
    assert_eq!(answer(31).output.len(), 31);
    assert_eq!(answer(32).output.len(), 32);
    assert_eq!(answer(33).output.len(), 32);
    assert_eq!(answer(i32::MAX).output.as_ref()[31], 31);
    assert_eq!(RETURN_CAP, 64);
    assert_eq!(OUTPUT_LEN, 32);
}

#[test]
fn entry_error_is_no_answer() {
    let mut dl = dl();
    let mut interp = interp(&transfer());
    let ret = to_entry(&mut dl, &mut interp);
    let step: Step = dl.try_call(
        &mut interp,
        TryCallEvent::EntryReturned { written: -1, ret },
    );
    assert!(is_declined(&step));
    assert!(check_transfer(&interp.input.input));
}

#[test]
fn answered_frame_is_not_a_transfer_any_more() {
    let mut dl = dl();
    let mut interp = interp(&transfer());
    let ret = to_entry(&mut dl, &mut interp);
    let _: Step = dl.try_call(
        &mut interp,
        TryCallEvent::EntryReturned { written: 32, ret },
    );
    assert!(matches!(&interp.input.input, CallInput::Bytes(b) if b.is_empty()));
    assert_eq!(interp.input.target_address, TARGET);
    assert_eq!(interp.input.bytecode_address, Some(CODE));
    let step: Step =
        dl.try_call(&mut interp, TryCallEvent::AccountsLoaded);
    assert!(is_declined(&step));
}

#[test]
fn other_inputs_are_declined() {
    let mut dl = dl();
    let mut shared = interp(&[]);
    shared.input.input = CallInput::SharedBuffer(0..68);
    let step: Step = dl.try_call(&mut shared, TryCallEvent::AccountsLoaded);
    assert!(is_declined(&step));
    let mut other = interp(&[1, 2, 3, 4, 5]);
    let step: Step = dl.try_call(&mut other, TryCallEvent::AccountsLoaded);
    assert!(is_declined(&step));
    assert!(dl.lib.get().is_none());
}

#[test]
fn target_stands_in_for_an_unknown_code_account() {
    let mut dl = dl();
    let mut interp = interp(&transfer());
    interp.input.bytecode_address = None;
    let (_, action): Step =
        dl.try_call(&mut interp, TryCallEvent::Begin { caller: CALLER });
    assert!(matches!(action, TryCallAction::LoadAccounts(a) if a == [TARGET, CALLER]));
}

#[test]
fn library_that_does_not_open_is_no_answer() {
    let mut dl = dl();
    let mut interp = interp(&transfer());
    let step: Step = dl.try_call(
        &mut interp,
        TryCallEvent::LibraryOpened(Err("missing".to_string())),
    );
    assert!(is_declined(&step));
    assert!(dl.lib.get().is_none());
}

#[test]
fn missing_entry_is_no_answer() {
    let mut dl = dl();
    let mut interp = interp(&transfer());
    let step: Step =
        dl.try_call(&mut interp, TryCallEvent::SymbolFound(false));
    assert!(is_declined(&step));
}

#[test]
fn shared_input_is_never_handed_to_the_entry() {
    let mut dl = dl();
    let mut interp = interp(&[]);
    interp.input.input = CallInput::SharedBuffer(0..68);
    let step: Step =
        dl.try_call(&mut interp, TryCallEvent::SymbolFound(true));
    assert!(is_declined(&step));
}

#[test]
fn library_is_kept() {
    let mut dl = dl();
    assert_eq!(
        dl.get_or_load(Err("missing".to_string())).unwrap_err(),
        "dlopen failed: missing".to_string()
    );
    assert!(dl.lib.get().is_none());
    let first = Arc::clone(dl.get_or_load(Ok(library())).unwrap());
    assert!(Arc::ptr_eq(&first, dl.get_or_load(Ok(library())).unwrap()));
    assert!(Arc::ptr_eq(&first, dl.get_or_load(Err("gone".to_string())).unwrap()));
    assert!(Arc::ptr_eq(&first, dl.lib.get().unwrap()));
    let mut interp = interp(&transfer());
    let (state, action): Step =
        dl.try_call(&mut interp, TryCallEvent::AccountsLoaded);
    assert_eq!(state, TryCallState::Symbol);
    assert!(matches!(action, TryCallAction::FindSymbol(_)));
}

fn ret_action() -> InterpreterAction<u32> {
    InterpreterAction::new_return(InstructionResult::Other(9), Bytes::new(), gas())
}

fn with_library() -> Evm {
    InlineAotEvm::from_evm("inner", 5).with_ffi(PathBuf::from("/lib/aot.so"), b"aot_entry")
}

/// What the EVM does after its callback gave nothing for a frame at `depth`.
fn ask(evm: &mut Evm, depth: usize) -> (FrameState, FrameAction<u32>) {
    let (state, action) = evm.frame_run::<u32>(FrameState::Start, FrameEvent::Begin);
    assert_eq!(state, FrameState::Callback);
    assert!(matches!(action, FrameAction::InvokeCallback));
    evm.frame_run(state, FrameEvent::CallbackReturned { action: None, depth })
}

fn asks_library(evm: &mut Evm, depth: usize) -> bool {
    let (state, action) = ask(evm, depth);
    match action {
        FrameAction::TryFfi => {
            assert_eq!(state, FrameState::Ffi);
            true
        }
        FrameAction::RunInterpreter => {
            assert_eq!(state, FrameState::Interpreter);
            false
        }
        other => panic!("{:?}", other),
    }
}

fn answered(evm: &mut Evm) -> (FrameState, FrameAction<u32>) {
    evm.frame_run(
        FrameState::Ffi,
        FrameEvent::FfiReturned { action: Some(ret_action()), target: TARGET, caller: CALLER },
    )
}

#[test]
fn wrapping_keeps_the_evm_and_the_callback() {
    let evm: Evm = InlineAotEvm::from_evm("inner", 5);
    assert_eq!(evm.inner, "inner");
    assert_eq!(evm.callback, 5);
    assert!(evm.dl.is_none());
    let evm = with_library();
    assert_eq!(evm.inner, "inner");
    assert_eq!(evm.callback, 5);
    let dl = evm.dl.as_ref().unwrap();
    assert_eq!(*dl.lib_path, PathBuf::from("/lib/aot.so"));
    assert_eq!(dl.symbol, b"aot_entry");
    assert!(dl.lib.get().is_none());
}

#[test]
fn callback_goes_first() {
    let mut evm = with_library();
    let (state, action) = evm.frame_run(
        FrameState::Callback,
        FrameEvent::CallbackReturned { action: Some(InterpreterAction::NewFrame(77u32)), depth: 0 },
    );
    assert_eq!(state, FrameState::Processing { mark_finished: true });
    match action {
        FrameAction::Process { load_first, action } => {
            assert!(load_first.is_none());
            assert!(matches!(action, InterpreterAction::NewFrame(77)));
        }
        other => panic!("{:?}", other),
    }
    assert!(asks_library(&mut evm, 0));
}

#[test]
fn library_is_asked_at_the_top_level_only() {
    let mut evm = with_library();
    assert!(!asks_library(&mut evm, 1));
    assert!(asks_library(&mut evm, 0));
    let mut bare: Evm = InlineAotEvm::from_evm("inner", 5);
    assert!(!asks_library(&mut bare, 0));
}

#[test]
fn library_answers_once_per_transaction() {
    let mut evm = with_library();
    assert!(asks_library(&mut evm, 0));
    let (state, action) = answered(&mut evm);
    assert_eq!(state, FrameState::Processing { mark_finished: true });
    match action {
        FrameAction::Process { load_first, action } => {
            assert_eq!(load_first, Some([TARGET, CALLER]));
            match action {
                InterpreterAction::Return(r) => assert_eq!(r.result, InstructionResult::Other(9)),
                other => panic!("{:?}", other),
            }
        }
        other => panic!("{:?}", other),
    }
    assert!(!asks_library(&mut evm, 0));
    evm.frame_init();
    assert!(!asks_library(&mut evm, 0));
    evm.finalize();
    assert!(asks_library(&mut evm, 0));
}

#[test]
fn new_transaction_may_use_the_library_without_finalize() {
    let mut evm = with_library();
    evm.transact_one();
    assert!(asks_library(&mut evm, 0));
    let _ = answered(&mut evm);
    evm.frame_init();
    assert!(!asks_library(&mut evm, 0));
    evm.transact_one();
    assert!(asks_library(&mut evm, 0));
    assert!(!asks_library(&mut evm, 1));
    assert_eq!(evm.inner, "inner");
    assert_eq!(evm.callback, 5);
}

#[test]
fn new_transaction_clears_a_returned_frame() {
    let mut evm = with_library();
    let _ = evm.frame_run(FrameState::Interpreter, FrameEvent::InterpreterReturned(ret_action()));
    assert!(!asks_library(&mut evm, 0));
    evm.transact_one();
    assert!(asks_library(&mut evm, 0));
}

#[test]
fn library_without_an_answer_falls_back() {
    let mut evm = with_library();
    let (state, action) = evm.frame_run::<u32>(
        FrameState::Ffi,
        FrameEvent::FfiReturned { action: None, target: TARGET, caller: CALLER },
    );
    assert_eq!(state, FrameState::Interpreter);
    assert!(matches!(action, FrameAction::RunInterpreter));
    assert!(asks_library(&mut evm, 0));
}

#[test]
fn returned_frame_does_not_go_to_the_library() {
    let mut evm = with_library();
    let (state, action) =
        evm.frame_run(FrameState::Interpreter, FrameEvent::InterpreterReturned(ret_action()));
    assert_eq!(state, FrameState::Processing { mark_finished: false });
    assert!(matches!(action, FrameAction::Process { load_first: None, .. }));
    assert!(!asks_library(&mut evm, 0));
    evm.frame_init();
    assert!(asks_library(&mut evm, 0));
}

#[test]
fn suspended_frame_may_still_go_to_the_library() {
    let mut evm = with_library();
    let _ = evm.frame_run(
        FrameState::Interpreter,
        FrameEvent::InterpreterReturned(InterpreterAction::NewFrame(1u32)),
    );
    assert!(asks_library(&mut evm, 0));
}

fn finishes(mark_finished: bool, outcome: Processed) -> bool {
    let mut evm = with_library();
    let (state, action) = evm.frame_run::<u32>(
        FrameState::Processing { mark_finished },
        FrameEvent::Processed(outcome),
    );
    assert_eq!(state, FrameState::Finished);
    match action {
        FrameAction::Finish { set_finished } => set_finished,
        other => panic!("{:?}", other),
    }
}

#[test]
fn frame_is_marked_finished_on_a_result() {
    assert!(finishes(true, Processed::Result));
    assert!(!finishes(true, Processed::Item));
    assert!(!finishes(true, Processed::Error));
    assert!(!finishes(false, Processed::Result));
}

type Replay = ReplayAction<u8, &'static str, u64>;

#[test]
fn replay_runs_finalizes_and_pairs_result_with_state() {
    let mut evm = with_library();
    let _ = answered(&mut evm);
    let action: Replay = evm.replay(ReplayEvent::Begin);
    assert!(matches!(action, ReplayAction::RunHandler));
    assert!(asks_library(&mut evm, 0));
    let _ = answered(&mut evm);
    assert!(!asks_library(&mut evm, 0));
    let action: Replay = evm.replay(ReplayEvent::HandlerReturned(Ok(3)));
    assert!(matches!(action, ReplayAction::FinalizeJournal { result: 3 }));
    assert!(asks_library(&mut evm, 0));
    let action: Replay = evm.replay(ReplayEvent::JournalFinalized { result: 3, state: 99 });
    match action {
        ReplayAction::Finish(done) => {
            assert_eq!(done, Ok(ResultAndState { result: 3, state: 99 }))
        }
        other => panic!("{:?}", other),
    }
}

#[test]
fn failed_replay_is_not_finalized() {
    let mut evm = with_library();
    let _: Replay = evm.replay(ReplayEvent::Begin);
    let _ = answered(&mut evm);
    let action: Replay = evm.replay(ReplayEvent::HandlerReturned(Err("bad")));
    match action {
        ReplayAction::Finish(done) => assert_eq!(done, Err("bad")),
        other => panic!("{:?}", other),
    }
    assert!(!asks_library(&mut evm, 0));
}

#[test]
fn event_out_of_turn_marks_nothing_finished() {
    let mut evm = with_library();
    let (state, action) =
        evm.frame_run::<u32>(FrameState::Start, FrameEvent::Processed(Processed::Result));
    assert_eq!(state, FrameState::Finished);
    assert!(matches!(action, FrameAction::Finish { set_finished: false }));
}
