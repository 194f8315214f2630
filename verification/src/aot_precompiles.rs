//! A precompile provider that answers calls to one contract from a dynamic library and leaves
//! every other call to the provider that it wraps.
//!
//! A call is a short dialogue. [`AotPrecompiles::run`] is told what has just happened and says
//! what to do next; the host touches the journal and the library in between.

use crate::buffer::{buffer_as_slice, buffer_from_vec, contents};
use crate::engine::{
    Address, CallInput, CallInputs, CodeHash, Gas, InstructionResult, InterpreterResult, MemoryGas,
};
use crate::library::{message, LibraryCell};
use crate::word::{align_to_word, be_value, law_aligning_keeps_value, low_word, same_bytes};
use libloading::Library;
use std::ops::Range;
use std::path::PathBuf;
use std::sync::Arc;
use vstd::arithmetic::power::pow;
use vstd::prelude::*;

verus! {

/// The symbol `custom`, which a library exports as its entry.
pub const ENTRY_SYMBOL: [u8; 6] = [0x63, 0x75, 0x73, 0x74, 0x6f, 0x6d];

/// Room in bytes for what an entry returns: one word.
pub const ENTRY_OUTPUT_LEN: usize = 32;

/// Answers calls to the contract with a given code hash from a dynamic library.
#[derive(Debug)]
pub struct AotPrecompiles<P> {
    /// The provider that answers every other call.
    pub inner: P,
    /// The code hash that the library stands in for.
    pub target_hash: CodeHash,
    /// Where the library lies.
    pub so_path: Arc<PathBuf>,
    /// The library, once it has been opened.
    pub lib: LibraryCell,
}

/// How far a call has come.
#[derive(Clone, Copy, Debug, PartialEq, Eq, Structural)]
pub enum RunState {
    /// Nothing has happened yet.
    Start,
    /// The account's code is being loaded.
    AccountCode,
    /// The library is being opened.
    Library,
    /// The library's entry is being looked up.
    Symbol,
    /// The input is being read from shared memory.
    SharedBuffer,
    /// The entry is running.
    Entry,
    /// The call is over.
    Finished,
}

/// What has happened.
#[derive(Debug)]
pub enum RunEvent {
    /// The call came in.
    Begin,
    /// Loading the account's code gave this hash, or failed.
    AccountCode(Option<CodeHash>),
    /// Opening the library gave a handle, or failed for the reason given.
    LibraryOpened(Result<Library, String>),
    /// Looking the entry up succeeded, or failed for the reason given.
    SymbolFound(Result<(), String>),
    /// Shared memory holds these bytes in the range asked for, if it has the range.
    SharedBuffer(Option<Vec<u8>>),
    /// The entry returned `status` and left `out` in the room it was given.
    EntryReturned {
        /// What the entry returned.
        status: i32,
        /// What it left behind.
        out: Vec<u8>,
    },
}

/// What to do next.
#[derive(Debug)]
pub enum RunAction {
    /// Load the code of this account.
    LoadAccountCode(Address),
    /// Open the library at this path.
    OpenLibrary(Arc<PathBuf>),
    /// Look this symbol up in the library.
    FindSymbol([u8; 6]),
    /// Read this range of shared memory.
    ReadSharedBuffer(Range<usize>),
    /// Call the entry.
    CallEntry {
        /// What it reads.
        input: [u8; 32],
        /// Room for what it writes.
        out: Vec<u8>,
    },
    /// Let the inner provider run the call.
    Delegate,
    /// The call is over, with this result.
    Finish(Result<Option<InterpreterResult>, String>),
}

impl RunState {
    /// Whether `event` is one that can happen in this state.
    pub open spec fn awaits(self, event: RunEvent) -> bool {
        match event {
            RunEvent::Begin => self == RunState::Start,
            RunEvent::AccountCode(_) => self == RunState::AccountCode,
            RunEvent::LibraryOpened(_) => self == RunState::Library,
            RunEvent::SymbolFound(_) => self == RunState::Symbol,
            RunEvent::SharedBuffer(_) => self == RunState::SharedBuffer,
            RunEvent::EntryReturned { .. } => self == RunState::Entry,
        }
    }
}

/// Whether `result` is what a call with `gas_limit` ends in when its entry returned `status` and
/// left `out` behind.
///
/// A negative status is a revert. Zero is success with all of the output, and a positive status
/// is success with as many bytes of it, or all of it where there are fewer. No gas is spent.
pub open spec fn is_entry_result(
    result: InterpreterResult,
    status: i32,
    out: Seq<u8>,
    gas_limit: u64,
) -> bool {
    &&& result.result == (if status >= 0 {
        InstructionResult::Return
    } else {
        InstructionResult::Revert
    })
    &&& contents(result.output) == (if 0 < status < out.len() {
        out.take(status as int)
    } else {
        out
    })
    &&& result.gas.limit == gas_limit
    &&& result.gas.remaining == gas_limit
    &&& result.gas.refunded == 0
    &&& result.gas.memory.words_num == 0
    &&& result.gas.memory.expansion_cost == 0
}

/// The result of a call with `gas_limit` whose entry returned `status` and left `out` behind.
pub fn entry_result(status: i32, out: Vec<u8>, gas_limit: u64) -> (result: InterpreterResult)
    ensures
        is_entry_result(result, status, out@, gas_limit),
{
    let mut out = out;
    if status > 0 {
        let written = status as usize;
        if written < out.len() {
            out.truncate(written);
        }
    }
    let result = if status >= 0 {
        InstructionResult::Return
    } else {
        InstructionResult::Revert
    };
    InterpreterResult { result, output: buffer_from_vec(out), gas: Gas::new(gas_limit) }
}

/// Whether `action` calls the entry on `input`, aligned to one word, with one word of zeros as
/// room for the output.
pub open spec fn is_entry_call(action: RunAction, input: Seq<u8>) -> bool {
    action matches RunAction::CallEntry { input: word, out } && word@ == low_word(input) && out@
        == Seq::new(ENTRY_OUTPUT_LEN as nat, |i: int| 0u8)
}

impl<P: Clone> Clone for AotPrecompiles<P> {
    /// A second provider on the same library. It holds a clone of the inner provider.
    fn clone(&self) -> (copy: Self)
        ensures
            cloned(self.inner, copy.inner),
            copy.target_hash == self.target_hash,
            copy.so_path == self.so_path,
            copy.lib@ == self.lib@,
    {
        AotPrecompiles {
            inner: self.inner.clone(),
            target_hash: self.target_hash,
            so_path: Arc::clone(&self.so_path),
            lib: self.lib.clone(),
        }
    }
}

impl<P> AotPrecompiles<P> {
    /// Wraps `inner`: calls to the contract whose code has the hash `target_hash` go to the
    /// library at `so_path`, which is opened when it is first needed.
    pub fn new(inner: P, target_hash: CodeHash, so_path: PathBuf) -> (precompiles: Self)
        ensures
            precompiles.inner == inner,
            precompiles.target_hash == target_hash,
            precompiles.so_path == Arc::new(so_path),
            precompiles.lib@ is None,
    {
        AotPrecompiles { inner, target_hash, so_path: Arc::new(so_path), lib: LibraryCell::new() }
    }

    /// Whether nothing but the library cell differs between `self` and `other`.
    pub open spec fn same_but_lib(self, other: Self) -> bool {
        &&& self.inner == other.inner
        &&& self.target_hash == other.target_hash
        &&& self.so_path == other.so_path
    }

    /// One step of a call: `event` has happened, and `action` is to be done next.
    pub open spec fn run_step(
        self,
        inputs: CallInputs,
        event: RunEvent,
        post: Self,
        next: RunState,
        action: RunAction,
    ) -> bool {
        &&& self.same_but_lib(post)
        &&& event !is LibraryOpened ==> post.lib@ == self.lib@
        &&& match event {
            RunEvent::Begin => {
                &&& next == RunState::AccountCode
                &&& action == RunAction::LoadAccountCode(inputs.bytecode_address)
            },
            RunEvent::AccountCode(hash) => if hash == Some(self.target_hash) {
                if self.lib@ is Some {
                    next == RunState::Symbol && action == RunAction::FindSymbol(ENTRY_SYMBOL)
                } else {
                    next == RunState::Library && action == RunAction::OpenLibrary(self.so_path)
                }
            } else {
                next == RunState::Finished && action == RunAction::Delegate
            },
            RunEvent::LibraryOpened(Ok(lib)) => {
                &&& next == RunState::Symbol
                &&& action == RunAction::FindSymbol(ENTRY_SYMBOL)
                &&& post.lib@ == (if self.lib@ is Some {
                    self.lib@
                } else {
                    Some(Arc::new(lib))
                })
            },
            RunEvent::LibraryOpened(Err(reason)) => {
                &&& post.lib@ == self.lib@
                &&& next == RunState::Finished
                &&& action matches RunAction::Finish(Err(text)) && text@ == "load so failed: "@
                    + reason@
            },
            RunEvent::SymbolFound(Ok(_)) => match inputs.input {
                CallInput::SharedBuffer(range) => {
                    next == RunState::SharedBuffer && action == RunAction::ReadSharedBuffer(range)
                },
                CallInput::Bytes(bytes) => {
                    next == RunState::Entry && is_entry_call(action, contents(bytes))
                },
            },
            RunEvent::SymbolFound(Err(reason)) => {
                &&& next == RunState::Finished
                &&& action matches RunAction::Finish(Err(text)) && text@
                    == "dlsym custom failed: "@ + reason@
            },
            RunEvent::SharedBuffer(slice) => {
                &&& next == RunState::Entry
                &&& is_entry_call(action, match slice {
                    Some(bytes) => bytes@,
                    None => Seq::empty(),
                })
            },
            RunEvent::EntryReturned { status, out } => {
                &&& next == RunState::Finished
                &&& action matches RunAction::Finish(Ok(Some(result))) && is_entry_result(
                    result,
                    status,
                    out@,
                    inputs.gas_limit,
                )
            },
        }
    }

    /// The action that calls the entry on `input`.
    fn call_entry(input: &[u8]) -> (action: RunAction)
        ensures
            is_entry_call(action, input@),
    {
        let out: Vec<u8> = vec![0u8; ENTRY_OUTPUT_LEN];
        assert(out@ =~= Seq::new(ENTRY_OUTPUT_LEN as nat, |i: int| 0u8));
        RunAction::CallEntry { input: align_to_word(input), out }
    }

    /// Takes a call one step further: `event` has happened, and what to do next comes back with
    /// the state that the call is then in, which tells the event that can follow.
    ///
    /// A call starts with [`RunEvent::Begin`] and is over when the action is
    /// [`RunAction::Delegate`] or [`RunAction::Finish`].
    pub fn run(&mut self, inputs: &CallInputs, event: RunEvent) -> (step: (RunState, RunAction))
        ensures
            old(self).run_step(*inputs, event, *final(self), step.0, step.1),
    {
        match event {
            RunEvent::Begin => (
                RunState::AccountCode,
                RunAction::LoadAccountCode(inputs.bytecode_address),
            ),
            RunEvent::AccountCode(hash) => {
                let hit = match hash {
                    Some(code_hash) => {
                        let same = same_bytes(code_hash.as_slice(), self.target_hash.as_slice());
                        assert(same == (code_hash =~= self.target_hash));
                        same
                    },
                    None => false,
                };
                if !hit {
                    (RunState::Finished, RunAction::Delegate)
                } else if self.lib.get().is_some() {
                    (RunState::Symbol, RunAction::FindSymbol(ENTRY_SYMBOL))
                } else {
                    (RunState::Library, RunAction::OpenLibrary(Arc::clone(&self.so_path)))
                }
            },
            RunEvent::LibraryOpened(opened) => match opened {
                Ok(lib) => {
                    self.lib.set(lib);
                    (RunState::Symbol, RunAction::FindSymbol(ENTRY_SYMBOL))
                },
                Err(reason) => (
                    RunState::Finished,
                    RunAction::Finish(Err(message("load so failed: ", &reason))),
                ),
            },
            RunEvent::SymbolFound(found) => match found {
                Ok(_) => match &inputs.input {
                    CallInput::SharedBuffer(range) => (
                        RunState::SharedBuffer,
                        RunAction::ReadSharedBuffer(range.start..range.end),
                    ),
                    CallInput::Bytes(bytes) => (
                        RunState::Entry,
                        Self::call_entry(buffer_as_slice(bytes)),
                    ),
                },
                Err(reason) => (
                    RunState::Finished,
                    RunAction::Finish(Err(message("dlsym custom failed: ", &reason))),
                ),
            },
            RunEvent::SharedBuffer(slice) => {
                let bytes = match slice {
                    Some(bytes) => bytes,
                    None => Vec::new(),
                };
                (RunState::Entry, Self::call_entry(bytes.as_slice()))
            },
            RunEvent::EntryReturned { status, out } => (
                RunState::Finished,
                RunAction::Finish(Ok(Some(entry_result(status, out, inputs.gas_limit)))),
            ),
        }
    }
}

/// One step of a call as it took place.
pub struct RunTransition<P> {
    /// The provider before the step.
    pub pre: AotPrecompiles<P>,
    /// The state before the step.
    pub state: RunState,
    /// What happened.
    pub event: RunEvent,
    /// The provider after the step.
    pub post: AotPrecompiles<P>,
    /// The state after the step.
    pub next: RunState,
    /// What was to be done next.
    pub action: RunAction,
}

impl<P> RunTransition<P> {
    /// Whether [`AotPrecompiles::run`] took this step.
    pub open spec fn is_step(self, inputs: CallInputs) -> bool {
        &&& self.state.awaits(self.event)
        &&& self.pre.run_step(inputs, self.event, self.post, self.next, self.action)
    }
}

/// Whether `trace` is what [`AotPrecompiles::run`] did for one call, from its start to some point
/// of it.
pub open spec fn is_run<P>(inputs: CallInputs, trace: Seq<RunTransition<P>>) -> bool {
    &&& trace.len() > 0
    &&& trace[0].state == RunState::Start
    &&& forall|i: int| 0 <= i < trace.len() ==> (#[trigger] trace[i]).is_step(inputs)
    &&& forall|i: int, j: int|
        0 <= i < trace.len() && 0 <= j < trace.len() && j == i + 1 ==> (#[trigger] trace[j]).state
            == (#[trigger] trace[i]).next && trace[j].pre == trace[i].post
}

/// The bytes that the call's input turned out to be at step `i` of `trace`: those of its own
/// buffer, or those found in shared memory, which are none where it lacks the range.
pub open spec fn input_at<P>(inputs: CallInputs, trace: Seq<RunTransition<P>>, i: int) -> Seq<u8> {
    match inputs.input {
        CallInput::Bytes(bytes) => contents(bytes),
        CallInput::SharedBuffer(_) => match trace[i].event {
            RunEvent::SharedBuffer(Some(bytes)) => bytes@,
            _ => Seq::empty(),
        },
    }
}

/// How many more steps a call can take.
spec fn steps_left(state: RunState) -> nat {
    match state {
        RunState::Start => 6,
        RunState::AccountCode => 5,
        RunState::Library => 4,
        RunState::Symbol => 3,
        RunState::SharedBuffer => 2,
        RunState::Entry => 1,
        RunState::Finished => 0,
    }
}

proof fn lemma_steps_left<P>(inputs: CallInputs, trace: Seq<RunTransition<P>>, i: int)
    requires
        is_run(inputs, trace),
        0 <= i < trace.len(),
    ensures
        i + steps_left(trace[i].state) <= 6,
        steps_left(trace[i].next) < steps_left(trace[i].state),
        trace[i].pre.target_hash == trace[0].pre.target_hash,
        trace[i].state == RunState::Start <==> i == 0,
        trace[i].state == RunState::AccountCode <==> i == 1,
    decreases i,
{
    assert(trace[i].is_step(inputs));
    if i > 0 {
        lemma_steps_left(inputs, trace, i - 1);
        assert(trace[i - 1].is_step(inputs));
        assert(trace[i].state == trace[i - 1].next);
    }
}

/// Every call is over after at most six steps, and it is over exactly when it has been delegated
/// or has a result.
pub proof fn law_run_ends<P>(inputs: CallInputs, trace: Seq<RunTransition<P>>)
    requires
        is_run(inputs, trace),
    ensures
        trace.len() <= 6,
        trace.len() == 6 ==> trace.last().next == RunState::Finished,
        forall|i: int|
            0 <= i < trace.len() ==> (trace[i].next == RunState::Finished <==> ((
            #[trigger] trace[i]).action is Delegate || trace[i].action is Finish)),
{
    assert forall|i: int| 0 <= i < trace.len() implies (trace[i].next == RunState::Finished <==> ((
    #[trigger] trace[i]).action is Delegate || trace[i].action is Finish)) by {
        assert(trace[i].is_step(inputs));
    }
    lemma_steps_left(inputs, trace, trace.len() - 1);
}

/// A call to an account whose code has another hash, or cannot be loaded, goes to the inner
/// provider at once: the library is neither opened nor searched nor called.
pub proof fn law_miss_is_delegated<P>(inputs: CallInputs, trace: Seq<RunTransition<P>>)
    requires
        is_run(inputs, trace),
        trace.len() >= 2,
        trace[1].event != RunEvent::AccountCode(Some(trace[0].pre.target_hash)),
    ensures
        trace.len() == 2,
        trace[0].action == RunAction::LoadAccountCode(inputs.bytecode_address),
        trace[1].action == RunAction::Delegate,
        trace[1].post.lib@ == trace[0].pre.lib@,
{
    lemma_steps_left(inputs, trace, 0);
    lemma_steps_left(inputs, trace, 1);
    assert(trace[0].is_step(inputs) && trace[1].is_step(inputs));
    if trace.len() > 2 {
        assert(trace[2].state == trace[1].next);
        lemma_steps_left(inputs, trace, 2);
    }
}

/// A call to an account whose code has the target hash never goes to the inner provider. Once it
/// is over it has either failed, because the library could not be opened or lacks the entry, or
/// the entry was called, and the entry's answer is the call's result.
pub proof fn law_hit_is_answered_by_library<P>(inputs: CallInputs, trace: Seq<RunTransition<P>>)
    requires
        is_run(inputs, trace),
        trace.len() >= 2,
        trace[1].event == RunEvent::AccountCode(Some(trace[0].pre.target_hash)),
    ensures
        forall|i: int| 0 <= i < trace.len() ==> (#[trigger] trace[i]).action !is Delegate,
        trace.last().next == RunState::Finished ==> match trace.last().event {
            RunEvent::LibraryOpened(Err(reason)) => {
                &&& trace.last().action matches RunAction::Finish(Err(text)) && text@
                    == "load so failed: "@ + reason@
            },
            RunEvent::SymbolFound(Err(reason)) => {
                &&& trace.last().action matches RunAction::Finish(Err(text)) && text@
                    == "dlsym custom failed: "@ + reason@
            },
            RunEvent::EntryReturned { status, out } => {
                let call = trace.len() - 2;
                &&& is_entry_call(trace[call].action, input_at(inputs, trace, call))
                &&& trace[call].post.lib@ is Some
                &&& trace.last().action matches RunAction::Finish(Ok(Some(result)))
                    && is_entry_result(result, status, out@, inputs.gas_limit)
            },
            _ => false,
        },
{
    assert forall|i: int| 0 <= i < trace.len() implies (#[trigger] trace[i]).action !is Delegate by {
        lemma_steps_left(inputs, trace, i);
        assert(trace[i].is_step(inputs));
    }
    let last = trace.len() - 1;
    lemma_steps_left(inputs, trace, last);
    assert(trace[last].is_step(inputs));
    if trace[last].event is EntryReturned {
        lemma_steps_left(inputs, trace, last - 1);
        assert(trace[last - 1].is_step(inputs));
        lemma_library_present(inputs, trace, last - 1);
        if trace[last - 1].state == RunState::SharedBuffer {
            assert(trace[last - 2].is_step(inputs));
            assert(trace[last - 1].state == trace[last - 2].next);
        }
    }
}

proof fn lemma_library_present<P>(inputs: CallInputs, trace: Seq<RunTransition<P>>, i: int)
    requires
        is_run(inputs, trace),
        0 <= i < trace.len(),
        trace[i].next == RunState::Symbol || trace[i].next == RunState::SharedBuffer
            || trace[i].next == RunState::Entry,
    ensures
        trace[i].post.lib@ is Some,
    decreases i,
{
    assert(trace[i].is_step(inputs));
    if trace[i].next != RunState::Symbol {
        lemma_steps_left(inputs, trace, i);
        assert(trace[i].state == trace[i - 1].next);
        lemma_library_present(inputs, trace, i - 1);
    }
}

/// A library, once opened, stays for every later step of every later call, and none of them asks
/// for it to be opened again. `calls[i]` are the inputs of the call that step `i` belongs to.
pub proof fn law_library_is_opened_once<P>(
    calls: Seq<CallInputs>,
    trace: Seq<RunTransition<P>>,
    i: int,
    j: int,
)
    requires
        calls.len() == trace.len(),
        forall|k: int| 0 <= k < trace.len() ==> (#[trigger] trace[k]).is_step(calls[k]),
        forall|k: int, l: int|
            0 <= k < trace.len() && 0 <= l < trace.len() && l == k + 1 ==> (#[trigger] trace[l]).pre
                == (#[trigger] trace[k]).post,
        0 <= i <= j < trace.len(),
        trace[i].pre.lib@ is Some,
    ensures
        trace[j].post.lib@ == trace[i].pre.lib@,
        trace[j].action !is OpenLibrary,
    decreases j,
{
    assert(trace[j].is_step(calls[j]));
    if i < j {
        law_library_is_opened_once(calls, trace, i, j - 1);
        assert(trace[j].pre == trace[j - 1].post);
    }
}

/// A new provider holds what it was made of, and no library.
pub proof fn law_new_provider<P>(
    inner: P,
    target_hash: CodeHash,
    so_path: PathBuf,
    provider: AotPrecompiles<P>,
)
    requires
        call_ensures(AotPrecompiles::<P>::new, (inner, target_hash, so_path), provider),
    ensures
        provider.inner == inner,
        provider.target_hash == target_hash,
        *provider.so_path == so_path,
        provider.lib@ is None,
{
}

/// The entry is always `custom`: no other symbol is ever looked up, whether the library was open
/// already or is opened in this call, and the entry is called only after that lookup succeeded.
pub proof fn law_entry_is_custom<P>(inputs: CallInputs, trace: Seq<RunTransition<P>>, i: int)
    requires
        is_run(inputs, trace),
        0 <= i < trace.len(),
    ensures
        trace[i].action matches RunAction::FindSymbol(name) ==> name@ == seq![
            0x63u8,
            0x75u8,
            0x73u8,
            0x74u8,
            0x6fu8,
            0x6du8,
        ],
        trace[i].action is CallEntry ==> match inputs.input {
            CallInput::Bytes(_) => {
                &&& i >= 1
                &&& trace[i - 1].action is FindSymbol
                &&& trace[i].event matches RunEvent::SymbolFound(Ok(_))
            },
            CallInput::SharedBuffer(_) => {
                &&& i >= 2
                &&& trace[i - 2].action is FindSymbol
                &&& trace[i - 1].event matches RunEvent::SymbolFound(Ok(_))
            },
        },
{
    assert(trace[i].is_step(inputs));
    assert(ENTRY_SYMBOL@ =~= seq![0x63u8, 0x75u8, 0x73u8, 0x74u8, 0x6fu8, 0x6du8]);
    if trace[i].action is CallEntry {
        lemma_steps_left(inputs, trace, i);
        assert(trace[i].state == trace[i - 1].next);
        assert(trace[i - 1].is_step(inputs));
        if trace[i].state == RunState::SharedBuffer {
            lemma_steps_left(inputs, trace, i - 1);
            assert(trace[i - 1].state == trace[i - 2].next);
            assert(trace[i - 2].is_step(inputs));
        }
    }
}

/// The word that the entry is given spells the number that the whole of the call's input spells,
/// modulo `256^32`: it ends in the input's last bytes, with zeros in front where there are fewer
/// than 32. The input is what the call's own buffer holds, or what shared memory gave for exactly
/// the range that the call names, which is nothing where it lacks the range. The entry is given
/// 32 bytes of room, all zero.
pub proof fn law_entry_reads_the_input<P>(
    inputs: CallInputs,
    trace: Seq<RunTransition<P>>,
    i: int,
    input: Seq<u8>,
    word: [u8; 32],
    out: Vec<u8>,
)
    requires
        is_run(inputs, trace),
        0 <= i < trace.len(),
        trace[i].action == (RunAction::CallEntry { input: word, out }),
        inputs.input matches CallInput::Bytes(bytes) ==> input == contents(bytes),
        inputs.input is SharedBuffer ==> match trace[i].event {
            RunEvent::SharedBuffer(Some(bytes)) => input == bytes@,
            _ => input == Seq::<u8>::empty(),
        },
    ensures
        be_value(word@) == be_value(input) as int % pow(256, 32),
        forall|k: int|
            0 <= k < 32 ==> #[trigger] word@[k] == (if k + input.len() >= 32 {
                input[k + input.len() - 32]
            } else {
                0u8
            }),
        out@.len() == 32,
        forall|k: int| 0 <= k < 32 ==> #[trigger] out@[k] == 0,
        inputs.input matches CallInput::SharedBuffer(range) ==> i > 0 && trace[i - 1].action
            == RunAction::ReadSharedBuffer(range) && trace[i].event is SharedBuffer,
{
    assert(trace[i].is_step(inputs));
    lemma_steps_left(inputs, trace, i);
    if trace[i].state == RunState::SharedBuffer {
        assert(trace[i].state == trace[i - 1].next);
        assert(trace[i - 1].is_step(inputs));
    }
    law_aligning_keeps_value(input);
}

/// The answer of an entry is the result of the call. Its output is, byte for byte, what the entry
/// left, from the front: all of it for a status of zero or below, and for a positive status as many
/// bytes as that, where there are as many. It is a return exactly when the status is not negative,
/// and else a revert, and the call has all of its gas left.
pub proof fn law_result_is_what_the_entry_left<P>(
    inputs: CallInputs,
    trace: Seq<RunTransition<P>>,
    i: int,
    status: i32,
    out: Vec<u8>,
)
    requires
        is_run(inputs, trace),
        0 <= i < trace.len(),
        trace[i].event == (RunEvent::EntryReturned { status, out }),
    ensures
        i == trace.len() - 1,
        trace[i].next == RunState::Finished,
        trace[i].action matches RunAction::Finish(Ok(Some(result))) && {
            let output = contents(result.output);
            &&& status <= 0 ==> output.len() == out@.len()
            &&& 0 < status <= out@.len() ==> output.len() == status
            &&& out@.len() < status ==> output.len() == out@.len()
            &&& forall|k: int| 0 <= k < output.len() ==> output[k] == #[trigger] out@[k]
            &&& status >= 0 ==> result.result == InstructionResult::Return
            &&& status < 0 ==> result.result == InstructionResult::Revert
            &&& result.gas == (Gas {
                limit: inputs.gas_limit,
                remaining: inputs.gas_limit,
                refunded: 0,
                memory: MemoryGas { words_num: 0, expansion_cost: 0 },
            })
        },
{
    assert(trace[i].is_step(inputs));
    if i < trace.len() - 1 {
        assert(trace[i + 1].state == trace[i].next);
        assert(trace[i + 1].is_step(inputs));
    }
}

/// Two answers that agree in how many bytes they report, and in those bytes, give results that
/// agree in their output, whatever else the entries left behind.
pub proof fn law_bytes_beyond_the_status_do_not_count(
    status: i32,
    out1: Vec<u8>,
    out2: Vec<u8>,
    gas_limit: u64,
    result1: InterpreterResult,
    result2: InterpreterResult,
)
    requires
        call_ensures(entry_result, (status, out1, gas_limit), result1),
        call_ensures(entry_result, (status, out2, gas_limit), result2),
        0 < status <= out1@.len(),
        status <= out2@.len(),
        forall|k: int| 0 <= k < status ==> out1@[k] == out2@[k],
    ensures
        contents(result1.output) == contents(result2.output),
        contents(result1.output) == out1@.take(status as int),
        result1.result == InstructionResult::Return,
        result1.gas == result2.gas,
{
    assert(contents(result1.output) =~= out1@.take(status as int));
    assert(contents(result2.output) =~= out1@.take(status as int));
}

/// The code hash decides where a call goes, and nothing else does: with the target hash it goes to
/// the library, which is opened at the provider's own path exactly when it is not open yet, and
/// with any other, or none, to the inner provider.
pub proof fn law_code_hash_decides<P>(
    inputs: CallInputs,
    trace: Seq<RunTransition<P>>,
    hash: Option<CodeHash>,
)
    requires
        is_run(inputs, trace),
        trace.len() >= 2,
        trace[1].event == RunEvent::AccountCode(hash),
    ensures
        trace[0].action == RunAction::LoadAccountCode(inputs.bytecode_address),
        trace[1].action is Delegate <==> hash != Some(trace[0].pre.target_hash),
        hash == Some(trace[0].pre.target_hash) && trace[0].pre.lib@ is None ==> trace[1].action
            == RunAction::OpenLibrary(trace[0].pre.so_path),
        hash == Some(trace[0].pre.target_hash) && trace[0].pre.lib@ is Some ==> trace[1].action is
            FindSymbol,
{
    lemma_steps_left(inputs, trace, 0);
    assert(trace[0].is_step(inputs));
    assert(trace[1].is_step(inputs));
    assert(trace[1].pre == trace[0].post);
}

/// A call that is under way is never dropped: a library that opens is kept and its entry looked up,
/// an entry that is found is called, on shared memory once that has been read, and a failure ends
/// the call with the reason that was given.
pub proof fn law_call_goes_on<P>(inputs: CallInputs, trace: Seq<RunTransition<P>>, i: int)
    requires
        is_run(inputs, trace),
        0 <= i < trace.len(),
    ensures
        trace[i].event matches RunEvent::LibraryOpened(Ok(lib)) ==> trace[i].action is FindSymbol
            && trace[i].post.lib@ is Some && (trace[i].pre.lib@ is None ==> *trace[i].post.lib@->0
            == lib),
        trace[i].event matches RunEvent::LibraryOpened(Err(reason)) ==> (trace[i].action matches
            RunAction::Finish(Err(text)) && text@ == "load so failed: "@ + reason@),
        trace[i].event matches RunEvent::SymbolFound(Ok(_)) ==> match inputs.input {
            CallInput::Bytes(_) => trace[i].action is CallEntry,
            CallInput::SharedBuffer(range) => trace[i].action == RunAction::ReadSharedBuffer(range),
        },
        trace[i].event matches RunEvent::SymbolFound(Err(reason)) ==> (trace[i].action matches
            RunAction::Finish(Err(text)) && text@ == "dlsym custom failed: "@ + reason@),
        trace[i].event is SharedBuffer ==> trace[i].action is CallEntry,
        i + 1 < trace.len() ==> match trace[i].action {
            RunAction::LoadAccountCode(_) => trace[i + 1].event is AccountCode,
            RunAction::OpenLibrary(_) => trace[i + 1].event is LibraryOpened,
            RunAction::FindSymbol(_) => trace[i + 1].event is SymbolFound,
            RunAction::ReadSharedBuffer(_) => trace[i + 1].event is SharedBuffer,
            RunAction::CallEntry { .. } => trace[i + 1].event is EntryReturned,
            RunAction::Delegate => false,
            RunAction::Finish(_) => false,
        },
{
    assert(trace[i].is_step(inputs));
    if i + 1 < trace.len() {
        let j = i + 1;
        assert(trace[j].state == trace[i].next);
        assert(trace[j].is_step(inputs));
    }
}

/// A call changes nothing of its provider but the library, and that only when it opens.
pub proof fn law_call_keeps_its_provider<P>(inputs: CallInputs, trace: Seq<RunTransition<P>>, i: int)
    requires
        is_run(inputs, trace),
        0 <= i < trace.len(),
    ensures
        trace[i].post.inner == trace[0].pre.inner,
        trace[i].post.target_hash == trace[0].pre.target_hash,
        trace[i].post.so_path == trace[0].pre.so_path,
        trace[0].pre.lib@ is Some ==> trace[i].post.lib@ == trace[0].pre.lib@,
        !(trace[i].event matches RunEvent::LibraryOpened(Ok(_))) ==> trace[i].post.lib@
            == trace[i].pre.lib@,
    decreases i,
{
    assert(trace[i].is_step(inputs));
    if i > 0 {
        law_call_keeps_its_provider(inputs, trace, i - 1);
        assert(trace[i].pre == trace[i - 1].post);
    }
}

/// A copy of a provider answers the same calls from the same library.
pub proof fn law_copy_answers_alike<P: Clone>(provider: AotPrecompiles<P>, copy: AotPrecompiles<P>)
    requires
        call_ensures(AotPrecompiles::<P>::clone, (&provider,), copy),
    ensures
        copy.target_hash == provider.target_hash,
        copy.so_path == provider.so_path,
        copy.lib@ == provider.lib@,
        cloned(provider.inner, copy.inner),
{
}

} // verus!
