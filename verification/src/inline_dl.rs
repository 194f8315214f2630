//! Answering a frame from an entry in a dynamic library.
//!
//! As with precompiles, an attempt is a dialogue: [`InlineDl::try_call`] is told what has just
//! happened and says what to do next.

use crate::buffer::{buffer_as_slice, contents};
use crate::engine::{
    Address, CallInput, InstructionResult, Interpreter, InterpreterAction,
};
use crate::ffi_bridge::{FfiCallData, FfiHostVTable, FfiReturnData, TRANSFER_SELECTOR};
use crate::library::{message, LibraryCell};
use crate::word::same_bytes;
use alloy_primitives::Bytes;
use libloading::Library;
use std::path::PathBuf;
use std::sync::Arc;
use vstd::prelude::*;
use vstd::slice::slice_subrange;

verus! {

/// Room in bytes for what an entry returns: two words.
pub const RETURN_CAP: usize = 64;

/// How many bytes of it a frame's output takes at most: one word.
pub const OUTPUT_LEN: usize = 32;

/// A dynamic library and the symbol that its entry goes by.
#[derive(Debug)]
pub struct InlineDl {
    /// Where the library lies.
    pub lib_path: Arc<PathBuf>,
    /// The entry's name.
    pub symbol: &'static [u8],
    /// The library, once it has been opened.
    pub lib: LibraryCell,
}

/// How far an attempt has come.
#[derive(Clone, Copy, Debug, PartialEq, Eq, Structural)]
pub enum TryCallState {
    /// Nothing has happened yet.
    Start,
    /// Accounts are being loaded.
    Accounts,
    /// The library is being opened.
    Library,
    /// The library's entry is being looked up.
    Symbol,
    /// The entry is running.
    Entry,
    /// The attempt is over.
    Finished,
}

/// What has happened.
#[derive(Debug)]
pub enum TryCallEvent {
    /// The attempt began, in a transaction sent by `caller`.
    Begin {
        /// The sender of the transaction.
        caller: Address,
    },
    /// The accounts were loaded, or could not be: it makes no difference.
    AccountsLoaded,
    /// Opening the library gave a handle, or failed for the reason given.
    LibraryOpened(Result<Library, String>),
    /// Whether the library has the entry.
    SymbolFound(bool),
    /// The entry returned `written` and left `ret` behind.
    EntryReturned {
        /// How many bytes the entry says it wrote; an error where negative.
        written: i32,
        /// The room that it was given.
        ret: FfiReturnData,
    },
}

/// What to do next.
#[derive(Debug)]
pub enum TryCallAction<F> {
    /// Load these accounts, in order.
    LoadAccounts([Address; 2]),
    /// Open the library at this path.
    OpenLibrary(Arc<PathBuf>),
    /// Look this symbol up in the library.
    FindSymbol(&'static [u8]),
    /// Load `account`, whether or not that succeeds, and call the entry.
    CallEntry {
        /// The account to load first.
        account: Address,
        /// The host functions that the entry may call.
        host: FfiHostVTable,
        /// What the entry reads.
        calldata: FfiCallData,
        /// Room for what it writes.
        ret: FfiReturnData,
    },
    /// The attempt is over: the frame's next action, if the library answered.
    Return(Option<InterpreterAction<F>>),
}

impl TryCallEvent {
    /// Whether the room that an entry hands back holds a frame's longest output.
    pub open spec fn keeps_room(self) -> bool {
        self matches TryCallEvent::EntryReturned { ret, .. } ==> ret.buf@.len() >= OUTPUT_LEN
    }
}

impl TryCallState {
    /// Whether `event` is one that can happen in this state.
    pub open spec fn awaits(self, event: TryCallEvent) -> bool {
        match event {
            TryCallEvent::Begin { .. } => self == TryCallState::Start,
            TryCallEvent::AccountsLoaded => self == TryCallState::Accounts,
            TryCallEvent::LibraryOpened(_) => self == TryCallState::Library,
            TryCallEvent::SymbolFound(_) => self == TryCallState::Symbol,
            TryCallEvent::EntryReturned { .. } => self == TryCallState::Entry,
        }
    }
}

/// Whether the library may answer a call with this input: only one with a buffer of its own that
/// starts with the transfer selector.
pub open spec fn is_transfer(input: CallInput) -> bool {
    match input {
        CallInput::Bytes(bytes) => {
            &&& contents(bytes).len() >= 4
            &&& contents(bytes).take(4) == TRANSFER_SELECTOR@
        },
        CallInput::SharedBuffer(_) => false,
    }
}

/// Whether the library may answer a call with this input.
pub fn check_transfer(input: &CallInput) -> (transfer: bool)
    ensures
        transfer == is_transfer(*input),
{
    match input {
        CallInput::Bytes(bytes) => {
            let data = buffer_as_slice(bytes);
            if data.len() < 4 {
                return false;
            }
            let selector = TRANSFER_SELECTOR;
            assert(data@.subrange(0, 4) =~= data@.take(4));
            same_bytes(slice_subrange(data, 0, 4), selector.as_slice())
        },
        CallInput::SharedBuffer(_) => false,
    }
}

/// How many bytes of output an entry gives that says it wrote `written`.
pub open spec fn output_len(written: i32) -> int {
    if written < OUTPUT_LEN {
        written as int
    } else {
        OUTPUT_LEN as int
    }
}

impl InlineDl {
    /// A library at `lib_path`, opened when it is first needed, with its entry under `symbol`.
    pub fn new(lib_path: PathBuf, symbol: &'static [u8]) -> (dl: InlineDl)
        ensures
            dl.lib_path == Arc::new(lib_path),
            dl.symbol == symbol,
            dl.lib@ is None,
    {
        InlineDl { lib_path: Arc::new(lib_path), symbol, lib: LibraryCell::new() }
    }

    /// Whether `opened`, which opening the library gave, takes `self` to `post` and gives `lib`.
    pub open spec fn load_step(
        self,
        opened: Result<Library, String>,
        post: Self,
        lib: Result<&Arc<Library>, String>,
    ) -> bool {
        &&& post.lib_path == self.lib_path
        &&& post.symbol == self.symbol
        &&& lib matches Ok(held) ==> post.lib@ == Some(*held)
        &&& self.lib@ is Some ==> post.lib@ == self.lib@ && lib is Ok
        &&& self.lib@ is None ==> match opened {
            Ok(library) => post.lib@ == Some(Arc::new(library)) && lib is Ok,
            Err(reason) => {
                &&& post.lib@ is None
                &&& lib matches Err(text) && text@ == "dlopen failed: "@ + reason@
            },
        }
    }

    /// The library: the one there is, or else the one that `opened` gave, which is kept. A failure
    /// to open it counts only where there is none.
    pub fn get_or_load(&mut self, opened: Result<Library, String>) -> (lib: Result<
        &Arc<Library>,
        String,
    >)
        ensures
            old(self).load_step(opened, *final(self), lib),
    {
        if self.lib.get().is_none() {
            match opened {
                Ok(library) => {
                    self.lib.set(library);
                },
                Err(reason) => {
                    return Err(message("dlopen failed: ", &reason));
                },
            }
        }
        Ok(self.lib.get().unwrap())
    }

    /// One step of an attempt: `event` has happened, and `action` is to be done next.
    pub open spec fn try_call_step<F>(
        self,
        interp: Interpreter,
        event: TryCallEvent,
        post: Self,
        interp_post: Interpreter,
        next: TryCallState,
        action: TryCallAction<F>,
    ) -> bool {
        let answered = event matches TryCallEvent::EntryReturned { written, .. } && written >= 0;
        &&& post.lib_path == self.lib_path
        &&& post.symbol == self.symbol
        &&& event !is LibraryOpened ==> post.lib@ == self.lib@
        &&& !answered ==> interp_post == interp
        &&& match event {
            TryCallEvent::Begin { caller } => {
                &&& next == TryCallState::Accounts
                &&& action matches TryCallAction::LoadAccounts(accounts) && accounts@ == seq![
                    interp.input.spec_code_account(),
                    caller,
                ]
            },
            TryCallEvent::AccountsLoaded => if !is_transfer(interp.input.input) {
                next == TryCallState::Finished && action == TryCallAction::<F>::Return(None)
            } else if self.lib@ is Some {
                next == TryCallState::Symbol && action == TryCallAction::<F>::FindSymbol(
                    self.symbol,
                )
            } else {
                next == TryCallState::Library && action == TryCallAction::<F>::OpenLibrary(
                    self.lib_path,
                )
            },
            TryCallEvent::LibraryOpened(opened) => {
                &&& post.lib@ == (if self.lib@ is Some {
                    self.lib@
                } else {
                    match opened {
                        Ok(library) => Some(Arc::new(library)),
                        Err(_) => None,
                    }
                })
                &&& if post.lib@ is Some {
                    next == TryCallState::Symbol && action == TryCallAction::<F>::FindSymbol(
                        self.symbol,
                    )
                } else {
                    next == TryCallState::Finished && action == TryCallAction::<F>::Return(None)
                }
            },
            TryCallEvent::SymbolFound(found) => match interp.input.input {
                CallInput::Bytes(bytes) if found => {
                    &&& next == TryCallState::Entry
                    &&& action matches TryCallAction::CallEntry { account, host, calldata, ret }
                        && account == interp.input.spec_code_account() && host.target
                        == interp.input.target_address && contents(calldata.data) == contents(bytes)
                        && ret.buf@ == Seq::new(RETURN_CAP as nat, |i: int| 0u8)
                },
                _ => {
                    next == TryCallState::Finished && action == TryCallAction::<F>::Return(None)
                },
            },
            TryCallEvent::EntryReturned { written, ret } => {
                &&& next == TryCallState::Finished
                &&& if written < 0 {
                    action == TryCallAction::<F>::Return(None)
                } else {
                    &&& interp_post.gas == interp.gas
                    &&& interp_post.input.target_address == interp.input.target_address
                    &&& interp_post.input.bytecode_address == interp.input.bytecode_address
                    &&& interp_post.input.input matches CallInput::Bytes(bytes) && contents(bytes)
                        == Seq::<u8>::empty()
                    &&& action matches TryCallAction::Return(
                        Some(InterpreterAction::Return(result)),
                    ) && result.result == InstructionResult::Return && result.gas == interp.gas
                        && contents(result.output) == ret.buf@.take(output_len(written))
                }
            },
        }
    }

    /// Takes an attempt to answer the frame of `interp` one step further: `event` has happened,
    /// and what to do next comes back with the state that the attempt is then in, which tells the
    /// event that can follow.
    ///
    /// An attempt starts with [`TryCallEvent::Begin`] and is over when the action is
    /// [`TryCallAction::Return`]. When the library has answered, the frame's input is emptied, so
    /// that the same frame does not go to the library again.
    pub fn try_call<F>(&mut self, interp: &mut Interpreter, event: TryCallEvent) -> (step: (
        TryCallState,
        TryCallAction<F>,
    ))
        requires
            event.keeps_room(),
        ensures
            old(self).try_call_step(
                *old(interp),
                event,
                *final(self),
                *final(interp),
                step.0,
                step.1,
            ),
    {
        match event {
            TryCallEvent::Begin { caller } => {
                let accounts: [Address; 2] = [interp.input.code_account(), caller];
                assert(accounts@ =~= seq![interp.input.spec_code_account(), caller]);
                (TryCallState::Accounts, TryCallAction::LoadAccounts(accounts))
            },
            TryCallEvent::AccountsLoaded => {
                if !check_transfer(&interp.input.input) {
                    (TryCallState::Finished, TryCallAction::Return(None))
                } else if self.lib.get().is_some() {
                    (TryCallState::Symbol, TryCallAction::FindSymbol(self.symbol))
                } else {
                    (TryCallState::Library, TryCallAction::OpenLibrary(Arc::clone(&self.lib_path)))
                }
            },
            TryCallEvent::LibraryOpened(opened) => {
                if self.get_or_load(opened).is_ok() {
                    (TryCallState::Symbol, TryCallAction::FindSymbol(self.symbol))
                } else {
                    (TryCallState::Finished, TryCallAction::Return(None))
                }
            },
            TryCallEvent::SymbolFound(found) => {
                if !found {
                    return (TryCallState::Finished, TryCallAction::Return(None));
                }
                match &interp.input.input {
                    CallInput::Bytes(bytes) => {
                        let account = interp.input.code_account();
                        let host = FfiHostVTable { target: interp.input.target_address };
                        let calldata = FfiCallData { data: bytes.clone() };
                        let ret = FfiReturnData::zeroed(RETURN_CAP);
                        (
                            TryCallState::Entry,
                            TryCallAction::CallEntry { account, host, calldata, ret },
                        )
                    },
                    CallInput::SharedBuffer(_) => (
                        TryCallState::Finished,
                        TryCallAction::Return(None),
                    ),
                }
            },
            TryCallEvent::EntryReturned { written, ret } => {
                if written < 0 {
                    return (TryCallState::Finished, TryCallAction::Return(None));
                }
                let written = written as usize;
                let len: usize = if written < OUTPUT_LEN {
                    written
                } else {
                    OUTPUT_LEN
                };
                interp.input.input = CallInput::Bytes(Bytes::new());
                let output = Bytes::copy_from_slice(slice_subrange(ret.buf.as_slice(), 0, len));
                assert(ret.buf@.subrange(0, len as int) =~= ret.buf@.take(len as int));
                let action = InterpreterAction::new_return(
                    InstructionResult::Return,
                    output,
                    interp.gas,
                );
                (TryCallState::Finished, TryCallAction::Return(Some(action)))
            },
        }
    }
}

/// One step of an attempt as it took place.
pub struct TryCallTransition<F> {
    /// The library before the step.
    pub pre: InlineDl,
    /// The frame's interpreter before the step.
    pub interp: Interpreter,
    /// The state before the step.
    pub state: TryCallState,
    /// What happened.
    pub event: TryCallEvent,
    /// The library after the step.
    pub post: InlineDl,
    /// The frame's interpreter after the step.
    pub interp_post: Interpreter,
    /// The state after the step.
    pub next: TryCallState,
    /// What was to be done next.
    pub action: TryCallAction<F>,
}

impl<F> TryCallTransition<F> {
    /// Whether [`InlineDl::try_call`] took this step.
    pub open spec fn is_step(self) -> bool {
        &&& self.state.awaits(self.event)
        &&& self.event.keeps_room()
        &&& self.pre.try_call_step(
            self.interp,
            self.event,
            self.post,
            self.interp_post,
            self.next,
            self.action,
        )
    }
}

/// Whether `trace` is what [`InlineDl::try_call`] did in one attempt, from its start to some
/// point of it.
pub open spec fn is_attempt<F>(trace: Seq<TryCallTransition<F>>) -> bool {
    &&& trace.len() > 0
    &&& trace[0].state == TryCallState::Start
    &&& forall|i: int| 0 <= i < trace.len() ==> (#[trigger] trace[i]).is_step()
    &&& forall|i: int, j: int|
        0 <= i < trace.len() && 0 <= j < trace.len() && j == i + 1 ==> (#[trigger] trace[j]).state
            == (#[trigger] trace[i]).next && trace[j].pre == trace[i].post && trace[j].interp
            == trace[i].interp_post
}

/// How many more steps an attempt can take.
spec fn steps_left(state: TryCallState) -> nat {
    match state {
        TryCallState::Start => 5,
        TryCallState::Accounts => 4,
        TryCallState::Library => 3,
        TryCallState::Symbol => 2,
        TryCallState::Entry => 1,
        TryCallState::Finished => 0,
    }
}

proof fn lemma_attempt_so_far<F>(trace: Seq<TryCallTransition<F>>, i: int)
    requires
        is_attempt(trace),
        0 <= i < trace.len(),
    ensures
        i + steps_left(trace[i].state) <= 5,
        steps_left(trace[i].next) < steps_left(trace[i].state),
        trace[i].interp == trace[0].interp,
        i == 0 <==> trace[i].state == TryCallState::Start,
        i == 1 <==> trace[i].state == TryCallState::Accounts,
        i >= 2 ==> is_transfer(trace[0].interp.input.input),
        trace[i].state == TryCallState::Symbol || trace[i].state == TryCallState::Entry
            ==> trace[i].pre.lib@ is Some,
    decreases i,
{
    assert(trace[i].is_step());
    if i > 0 {
        lemma_attempt_so_far(trace, i - 1);
        assert(trace[i - 1].is_step());
        assert(trace[i].state == trace[i - 1].next);
    }
}

/// Every attempt is over after at most five steps, and it is over exactly when it returns.
pub proof fn law_attempt_ends<F>(trace: Seq<TryCallTransition<F>>)
    requires
        is_attempt(trace),
    ensures
        trace.len() <= 5,
        trace.len() == 5 ==> trace.last().next == TryCallState::Finished,
        forall|i: int|
            0 <= i < trace.len() ==> (trace[i].next == TryCallState::Finished <==> (
            #[trigger] trace[i]).action is Return),
{
    assert forall|i: int| 0 <= i < trace.len() implies (trace[i].next == TryCallState::Finished
        <==> (#[trigger] trace[i]).action is Return) by {
        assert(trace[i].is_step());
    }
    lemma_attempt_so_far(trace, trace.len() - 1);
}

/// Only transfers reach the library: for a frame with any other input the attempt ends once the
/// accounts are loaded, without an answer, and changes neither the frame nor the library.
pub proof fn law_only_transfers_reach_library<F>(trace: Seq<TryCallTransition<F>>)
    requires
        is_attempt(trace),
        !is_transfer(trace[0].interp.input.input),
    ensures
        trace.len() <= 2,
        trace[0].action is LoadAccounts,
        trace.len() == 2 ==> trace[1].action == TryCallAction::<F>::Return(None),
        trace.last().interp_post == trace[0].interp,
        trace.last().post.lib@ == trace[0].pre.lib@,
{
    let last = trace.len() - 1;
    lemma_attempt_so_far(trace, last);
    lemma_attempt_so_far(trace, 0);
    assert(trace[0].is_step());
    assert(trace[last].is_step());
    if last == 1 {
        assert(trace[1].pre == trace[0].post);
    }
}

/// An attempt that is over gives an answer exactly when the entry was called and did not report
/// an error. The entry was then given the frame's whole input and host functions bound to the
/// frame's target, and the answer ends the frame with the first bytes that the entry left, as
/// many as it wrote and one word at most, on an untouched gas meter. An attempt without an answer
/// leaves the frame as it was.
pub proof fn law_answer_comes_from_entry<F>(trace: Seq<TryCallTransition<F>>)
    requires
        is_attempt(trace),
        trace.last().next == TryCallState::Finished,
    ensures
        trace.last().action is Return,
        match trace.last().event {
            TryCallEvent::EntryReturned { written, ret } if written >= 0 => {
                let start = trace[0].interp;
                &&& trace.len() >= 2
                &&& is_transfer(start.input.input)
                &&& start.input.input matches CallInput::Bytes(input)
                    && trace[trace.len() - 2].action matches TryCallAction::CallEntry {
                    account,
                    host,
                    calldata,
                    ret: room,
                } && account == start.input.spec_code_account() && host.target
                    == start.input.target_address && contents(calldata.data) == contents(input)
                    && room.buf@ == Seq::new(RETURN_CAP as nat, |i: int| 0u8)
                &&& trace.last().action matches TryCallAction::Return(
                    Some(InterpreterAction::Return(result)),
                ) && result.result == InstructionResult::Return && result.gas == start.gas
                    && contents(result.output) == ret.buf@.take(output_len(written))
            },
            _ => {
                &&& trace.last().action == TryCallAction::<F>::Return(None)
                &&& trace.last().interp_post == trace[0].interp
            },
        },
{
    let last = trace.len() - 1;
    lemma_attempt_so_far(trace, last);
    assert(trace[last].is_step());
    if trace[last].event is EntryReturned {
        lemma_attempt_so_far(trace, last - 1);
        assert(trace[last - 1].is_step());
        assert(trace[last].state == trace[last - 1].next);
    }
}

/// A frame that the library has answered does not reach it again: its input is no transfer any
/// more.
pub proof fn law_answered_frame_is_not_called_again<F>(step: TryCallTransition<F>)
    requires
        step.is_step(),
        step.action matches TryCallAction::Return(Some(_)),
    ensures
        !is_transfer(step.interp_post.input.input),
{
}

/// A library, once opened, stays for every later step of every later attempt, and none of them
/// asks for it to be opened again.
pub proof fn law_library_is_opened_once<F>(trace: Seq<TryCallTransition<F>>, i: int, j: int)
    requires
        forall|k: int| 0 <= k < trace.len() ==> (#[trigger] trace[k]).is_step(),
        forall|k: int, l: int|
            0 <= k < trace.len() && 0 <= l < trace.len() && l == k + 1 ==> (#[trigger] trace[l]).pre
                == (#[trigger] trace[k]).post,
        0 <= i <= j < trace.len(),
        trace[i].pre.lib@ is Some,
    ensures
        trace[j].post.lib@ == trace[i].pre.lib@,
        trace[j].action !is OpenLibrary,
    decreases j,
{
    assert(trace[j].is_step());
    if i < j {
        law_library_is_opened_once(trace, i, j - 1);
        assert(trace[j].pre == trace[j - 1].post);
    }
}

/// A new library has the path and the symbol it was made of, and is not open.
pub proof fn law_new_library(lib_path: PathBuf, symbol: &'static [u8], dl: InlineDl)
    requires
        call_ensures(InlineDl::new, (lib_path, symbol), dl),
    ensures
        *dl.lib_path == lib_path,
        dl.symbol@ == symbol@,
        dl.lib@ is None,
{
}

/// The transfer selector is the bytes `0xa9`, `0x05`, `0x9c` and `0xbb`.
proof fn lemma_selector_bytes(data: Seq<u8>)
    ensures
        data.len() >= 4 ==> (data.take(4) == TRANSFER_SELECTOR@ <==> data[0] == 0xa9 && data[1]
            == 0x05 && data[2] == 0x9c && data[3] == 0xbb),
{
    if data.len() >= 4 {
        let front = data.take(4);
        assert(front[0] == data[0] && front[1] == data[1] && front[2] == data[2] && front[3]
            == data[3]);
        if data[0] == 0xa9 && data[1] == 0x05 && data[2] == 0x9c && data[3] == 0xbb {
            assert(front =~= TRANSFER_SELECTOR@);
        }
    }
}

/// An input passes for a transfer exactly when it has a buffer of its own whose first four bytes are
/// `0xa9`, `0x05`, `0x9c` and `0xbb`; what follows them does not count.
pub proof fn law_transfer_is_told_by_four_bytes(input: CallInput, transfer: bool)
    requires
        call_ensures(check_transfer, (&input,), transfer),
    ensures
        input is SharedBuffer ==> !transfer,
        input matches CallInput::Bytes(bytes) ==> (transfer <==> {
            let data = contents(bytes);
            &&& data.len() >= 4
            &&& data[0] == 0xa9
            &&& data[1] == 0x05
            &&& data[2] == 0x9c
            &&& data[3] == 0xbb
        }),
{
    if let CallInput::Bytes(bytes) = input {
        lemma_selector_bytes(contents(bytes));
    }
}

/// An attempt that does anything but load accounts and decline is for a frame with a buffer of its
/// own whose first four bytes are `0xa9`, `0x05`, `0x9c` and `0xbb`.
pub proof fn law_library_is_for_selector_bytes<F>(trace: Seq<TryCallTransition<F>>, i: int)
    requires
        is_attempt(trace),
        0 <= i < trace.len(),
        !(trace[i].action is LoadAccounts),
        trace[i].action != TryCallAction::<F>::Return(None),
    ensures
        trace[0].interp.input.input matches CallInput::Bytes(bytes) && {
            let data = contents(bytes);
            &&& data.len() >= 4
            &&& data[0] == 0xa9
            &&& data[1] == 0x05
            &&& data[2] == 0x9c
            &&& data[3] == 0xbb
        },
{
    lemma_attempt_so_far(trace, i);
    assert(trace[i].is_step());
    if let CallInput::Bytes(bytes) = trace[0].interp.input.input {
        lemma_selector_bytes(contents(bytes));
    }
}

/// A frame with a buffer of its own whose first four bytes are `0xa9`, `0x05`, `0x9c` and `0xbb` is
/// not declined once its accounts are loaded: the library is opened at its own path where it is not
/// open yet, and the entry is looked up under its own symbol where it is.
pub proof fn law_selector_bytes_go_to_the_library<F>(trace: Seq<TryCallTransition<F>>, bytes: Bytes)
    requires
        is_attempt(trace),
        trace.len() >= 2,
        trace[0].interp.input.input == CallInput::Bytes(bytes),
        contents(bytes).len() >= 4,
        contents(bytes)[0] == 0xa9,
        contents(bytes)[1] == 0x05,
        contents(bytes)[2] == 0x9c,
        contents(bytes)[3] == 0xbb,
    ensures
        trace[1].event is AccountsLoaded,
        trace[0].pre.lib@ is None ==> trace[1].action == TryCallAction::<F>::OpenLibrary(
            trace[0].pre.lib_path,
        ),
        trace[0].pre.lib@ is Some ==> trace[1].action == TryCallAction::<F>::FindSymbol(
            trace[0].pre.symbol,
        ),
{
    lemma_attempt_so_far(trace, 0);
    lemma_attempt_so_far(trace, 1);
    assert(trace[0].is_step());
    assert(trace[1].is_step());
    assert(trace[1].pre == trace[0].post);
    lemma_selector_bytes(contents(bytes));
}

/// Every attempt starts by loading the account whose code runs, which is the target where nothing
/// else is known, and then the sender.
pub proof fn law_accounts_are_loaded_first<F>(trace: Seq<TryCallTransition<F>>, caller: Address)
    requires
        is_attempt(trace),
        trace[0].event == (TryCallEvent::Begin { caller }),
    ensures
        trace[0].action matches TryCallAction::LoadAccounts(accounts) && {
            let input = trace[0].interp.input;
            &&& input.bytecode_address matches Some(address) ==> accounts@[0] == address
            &&& input.bytecode_address is None ==> accounts@[0] == input.target_address
            &&& accounts@[1] == caller
        },
{
    assert(trace[0].is_step());
}

/// An entry is given the whole of the frame's input, unchanged, 64 zeros of room, and host functions
/// for the frame's target; the account whose code runs is loaded first.
pub proof fn law_entry_is_given_the_whole_input<F>(
    trace: Seq<TryCallTransition<F>>,
    i: int,
    account: Address,
    host: FfiHostVTable,
    calldata: FfiCallData,
    ret: FfiReturnData,
)
    requires
        is_attempt(trace),
        0 <= i < trace.len(),
        trace[i].action == (TryCallAction::<F>::CallEntry { account, host, calldata, ret }),
    ensures
        trace[0].interp.input.input matches CallInput::Bytes(bytes) && contents(calldata.data)
            == contents(bytes),
        host.target == trace[0].interp.input.target_address,
        trace[0].interp.input.bytecode_address matches Some(address) ==> account == address,
        trace[0].interp.input.bytecode_address is None ==> account
            == trace[0].interp.input.target_address,
        ret.buf@.len() == 64,
        forall|k: int| 0 <= k < 64 ==> #[trigger] ret.buf@[k] == 0,
        trace[i].event == TryCallEvent::SymbolFound(true),
        trace[i].pre.lib@ is Some,
{
    lemma_attempt_so_far(trace, i);
    assert(trace[i].is_step());
}

/// An entry that reports no error answers the frame: the frame returns, byte for byte, what the
/// entry left, from the front, as many bytes as it says it wrote and 32 at most, with the gas meter
/// that the frame had. Of the frame only the input changes: it is a buffer with nothing in it. An
/// entry that reports an error answers nothing and leaves the frame as it was.
pub proof fn law_frame_returns_what_the_entry_left<F>(
    trace: Seq<TryCallTransition<F>>,
    i: int,
    written: i32,
    ret: FfiReturnData,
)
    requires
        is_attempt(trace),
        0 <= i < trace.len(),
        trace[i].event == (TryCallEvent::EntryReturned { written, ret }),
    ensures
        i == trace.len() - 1,
        written < 0 ==> trace[i].action == TryCallAction::<F>::Return(None)
            && trace[i].interp_post == trace[0].interp,
        written >= 0 ==> {
            &&& trace[i].action matches TryCallAction::Return(
                Some(InterpreterAction::Return(result)),
            ) && {
                let output = contents(result.output);
                &&& written <= 32 ==> output.len() == written
                &&& written > 32 ==> output.len() == 32
                &&& forall|k: int|
                    0 <= k < output.len() ==> output[k] == #[trigger] ret.buf@[k]
                &&& result.result == InstructionResult::Return
                &&& result.gas == trace[0].interp.gas
            }
            &&& trace[i].interp_post.gas == trace[0].interp.gas
            &&& trace[i].interp_post.input.target_address == trace[0].interp.input.target_address
            &&& trace[i].interp_post.input.bytecode_address
                == trace[0].interp.input.bytecode_address
            &&& trace[i].interp_post.input.input matches CallInput::Bytes(rest) && contents(
                rest,
            ).len() == 0
        },
{
    lemma_attempt_so_far(trace, i);
    assert(trace[i].is_step());
    if i < trace.len() - 1 {
        lemma_attempt_so_far(trace, i + 1);
        assert(trace[i + 1].state == trace[i].next);
    }
}

/// An attempt that is under way is never dropped: a library that opens is kept and the entry looked
/// up under its own symbol, an entry that is found is called, and only a library that does not
/// open, or lacks the entry, ends the attempt without an answer.
pub proof fn law_attempt_goes_on<F>(trace: Seq<TryCallTransition<F>>, i: int)
    requires
        is_attempt(trace),
        0 <= i < trace.len(),
    ensures
        trace[i].event matches TryCallEvent::LibraryOpened(Ok(library)) ==> trace[i].action
            == TryCallAction::<F>::FindSymbol(trace[0].pre.symbol) && trace[i].post.lib@ is Some
            && (trace[i].pre.lib@ is None ==> *trace[i].post.lib@->0 == library),
        trace[i].event matches TryCallEvent::LibraryOpened(Err(_)) ==> trace[i].pre.lib@ is None
            ==> trace[i].action == TryCallAction::<F>::Return(None),
        trace[i].event == TryCallEvent::SymbolFound(true) ==> trace[i].action is CallEntry,
        trace[i].event == TryCallEvent::SymbolFound(false) ==> trace[i].action
            == TryCallAction::<F>::Return(None),
        i + 1 < trace.len() ==> match trace[i].action {
            TryCallAction::LoadAccounts(_) => trace[i + 1].event is AccountsLoaded,
            TryCallAction::OpenLibrary(_) => trace[i + 1].event is LibraryOpened,
            TryCallAction::FindSymbol(_) => trace[i + 1].event is SymbolFound,
            TryCallAction::CallEntry { .. } => trace[i + 1].event is EntryReturned,
            TryCallAction::Return(_) => false,
        },
{
    lemma_attempt_so_far(trace, i);
    law_attempt_keeps_its_library(trace, i);
    assert(trace[i].is_step());
    if i + 1 < trace.len() {
        let j = i + 1;
        assert(trace[j].state == trace[i].next);
        assert(trace[j].is_step());
    }
}

/// An attempt changes neither the path nor the symbol, and the library only when it opens; and the
/// frame not before an entry has answered.
pub proof fn law_attempt_keeps_its_library<F>(trace: Seq<TryCallTransition<F>>, i: int)
    requires
        is_attempt(trace),
        0 <= i < trace.len(),
    ensures
        trace[i].pre.symbol == trace[0].pre.symbol,
        trace[i].post.lib_path == trace[0].pre.lib_path,
        trace[i].post.symbol == trace[0].pre.symbol,
        trace[0].pre.lib@ is Some ==> trace[i].post.lib@ == trace[0].pre.lib@,
        !(trace[i].event matches TryCallEvent::LibraryOpened(Ok(_))) ==> trace[i].post.lib@
            == trace[i].pre.lib@,
        !(trace[i].event is EntryReturned) ==> trace[i].interp_post == trace[0].interp,
    decreases i,
{
    lemma_attempt_so_far(trace, i);
    assert(trace[i].is_step());
    if i > 0 {
        law_attempt_keeps_its_library(trace, i - 1);
        assert(trace[i].pre == trace[i - 1].post);
    }
}

/// Loading twice gives the library that was there first, or else the first one that opened: a later
/// one neither replaces it nor, where it fails to open, takes it away. Only where there is none does
/// a failure count, and its reason is passed on.
pub proof fn law_first_library_stays(
    dl: InlineDl,
    first: Result<Library, String>,
    dl1: InlineDl,
    lib1: Result<&Arc<Library>, String>,
    second: Result<Library, String>,
    dl2: InlineDl,
    lib2: Result<&Arc<Library>, String>,
)
    requires
        dl.load_step(first, dl1, lib1),
        dl1.load_step(second, dl2, lib2),
    ensures
        dl1.lib_path == dl.lib_path,
        dl1.symbol == dl.symbol,
        dl.lib@ matches Some(held) ==> lib1 is Ok && *lib1->Ok_0 == held,
        dl.lib@ is None ==> match first {
            Ok(library) => lib1 is Ok && **lib1->Ok_0 == library,
            Err(reason) => {
                &&& dl1.lib@ is None
                &&& lib1 matches Err(text) && text@ == "dlopen failed: "@ + reason@
            },
        },
        lib1 is Ok ==> lib2 is Ok && *lib2->Ok_0 == *lib1->Ok_0 && dl2.lib@ == dl1.lib@,
{
}

} // verus!
