//! An EVM whose frames can be answered by a callback, or by code compiled ahead of time, before
//! the interpreter runs them.
//!
//! Running a frame is a dialogue: [`InlineAotEvm::frame_run`] is told what has just happened and
//! says what to do next.

use crate::engine::{Address, InterpreterAction};
use crate::inline_dl::InlineDl;
use std::path::PathBuf;
use std::sync::Arc;
use vstd::prelude::*;

verus! {

/// What has been handled already, so that the library is not asked again.
#[derive(Debug)]
pub struct Handled {
    /// Whether the current frame needs no library any more.
    frame: bool,
    /// Whether the library has answered in the current transaction.
    tx: bool,
}

impl Handled {
    /// Whether the current frame needs no library any more.
    pub closed spec fn frame(self) -> bool {
        self.frame
    }

    /// Whether the library has answered in the current transaction.
    pub closed spec fn tx(self) -> bool {
        self.tx
    }
}

/// An EVM with a callback and, optionally, a library in front of its interpreter.
#[derive(Debug)]
pub struct InlineAotEvm<E, C> {
    /// The EVM that runs frames in the end.
    pub inner: E,
    /// Asked for every frame before anything else.
    pub callback: C,
    /// Asked next, for a top-level frame.
    pub dl: Option<InlineDl>,
    /// What has been handled already.
    pub handled: Handled,
}

/// How far a frame has come.
#[derive(Clone, Copy, Debug, PartialEq, Eq, Structural)]
pub enum FrameState {
    /// Nothing has happened yet.
    Start,
    /// The callback is being asked.
    Callback,
    /// The library is being asked.
    Ffi,
    /// The interpreter is running.
    Interpreter,
    /// An action is being processed. If it gives the frame's result, the frame is to be marked
    /// as finished where `mark_finished` says so.
    Processing {
        /// Whether a result finishes the frame.
        mark_finished: bool,
    },
    /// The run is over.
    Finished,
}

/// What processing an action came to.
#[derive(Clone, Copy, Debug, PartialEq, Eq, Structural)]
pub enum Processed {
    /// A new frame to open.
    Item,
    /// The frame's result.
    Result,
    /// A failure of the database.
    Error,
}

/// What has happened. `F` describes a new frame.
#[derive(Debug)]
pub enum FrameEvent<F> {
    /// The frame's turn came.
    Begin,
    /// The callback gave an action, or none, for a frame at `depth`.
    CallbackReturned {
        /// What the callback gave.
        action: Option<InterpreterAction<F>>,
        /// How deep the frame lies; the top-level frame is at zero.
        depth: usize,
    },
    /// The library gave an action, or none.
    FfiReturned {
        /// What the library gave.
        action: Option<InterpreterAction<F>>,
        /// The account that the frame runs as.
        target: Address,
        /// The sender of the transaction.
        caller: Address,
    },
    /// The interpreter stopped with an action.
    InterpreterReturned(InterpreterAction<F>),
    /// The action was processed.
    Processed(Processed),
}

/// What to do next.
#[derive(Debug)]
pub enum FrameAction<F> {
    /// Ask the callback.
    InvokeCallback,
    /// Ask the library.
    TryFfi,
    /// Run the interpreter.
    RunInterpreter,
    /// Load the accounts in `load_first`, in order, whether or not that succeeds, and process
    /// `action`.
    Process {
        /// The accounts to load.
        load_first: Option<[Address; 2]>,
        /// The action to process.
        action: InterpreterAction<F>,
    },
    /// The run is over. Its result is what processing gave.
    Finish {
        /// Whether to mark the frame as finished.
        set_finished: bool,
    },
}

/// What a transaction ended in, with the state that it leaves.
#[derive(Clone, Copy, Debug, PartialEq, Eq)]
pub struct ResultAndState<R, S> {
    /// What it ended in.
    pub result: R,
    /// The state that it leaves.
    pub state: S,
}

/// What has happened in a replay. `R` is what a transaction ends in, `X` why it could not run, and
/// `S` the state that it leaves.
#[derive(Debug)]
pub enum ReplayEvent<R, X, S> {
    /// The replay was asked for.
    Begin,
    /// The handler ran the transaction.
    HandlerReturned(Result<R, X>),
    /// The journal handed its state over, after a run that gave `result`.
    JournalFinalized {
        /// What the run gave.
        result: R,
        /// The journal's state.
        state: S,
    },
}

/// What to do next in a replay.
#[derive(Debug)]
pub enum ReplayAction<R, X, S> {
    /// Run the transaction that is set.
    RunHandler,
    /// Take the journal's state. The run gave `result`.
    FinalizeJournal {
        /// What the run gave.
        result: R,
    },
    /// The replay is over, with this result.
    Finish(Result<ResultAndState<R, S>, X>),
}

impl FrameState {
    /// Whether `event` is one that can happen in this state.
    pub open spec fn awaits<F>(self, event: FrameEvent<F>) -> bool {
        match event {
            FrameEvent::Begin => self == FrameState::Start,
            FrameEvent::CallbackReturned { .. } => self == FrameState::Callback,
            FrameEvent::FfiReturned { .. } => self == FrameState::Ffi,
            FrameEvent::InterpreterReturned(_) => self == FrameState::Interpreter,
            FrameEvent::Processed(_) => self is Processing,
        }
    }
}

impl<E, C> InlineAotEvm<E, C> {
    /// Whether nothing but what has been handled differs between `self` and `other`.
    pub open spec fn same_but_handled(self, other: Self) -> bool {
        &&& self.inner == other.inner
        &&& self.callback == other.callback
        &&& self.dl == other.dl
    }

    /// Whether the library may be asked for a frame at `depth`.
    pub open spec fn may_ask_library(self, depth: usize) -> bool {
        &&& self.dl is Some
        &&& !self.handled.frame()
        &&& !self.handled.tx()
        &&& depth == 0
    }

    /// Wraps `inner`, with `callback` in front of it.
    pub fn from_evm(inner: E, callback: C) -> (evm: Self)
        ensures
            evm.inner == inner,
            evm.callback == callback,
            evm.dl is None,
            !evm.handled.frame(),
            !evm.handled.tx(),
    {
        InlineAotEvm {
            inner,
            callback,
            dl: None,
            handled: Handled { frame: false, tx: false },
        }
    }

    /// Puts the library at `lib_path`, with its entry under `symbol`, in front of the interpreter
    /// as well.
    pub fn with_ffi(self, lib_path: PathBuf, symbol: &'static [u8]) -> (evm: Self)
        ensures
            evm.inner == self.inner,
            evm.callback == self.callback,
            evm.dl matches Some(dl) && dl.lib_path == Arc::new(lib_path) && dl.symbol == symbol
                && dl.lib@ is None,
            evm.handled.frame() == self.handled.frame(),
            evm.handled.tx() == self.handled.tx(),
    {
        let mut evm = self;
        evm.dl = Some(InlineDl::new(lib_path, symbol));
        evm
    }

    /// Whether the start of a new frame takes `self` to `post`.
    pub open spec fn frame_init_step(self, post: Self) -> bool {
        &&& self.same_but_handled(post)
        &&& !post.handled.frame()
        &&& post.handled.tx() == self.handled.tx()
    }

    /// Prepares for a new frame, which the inner EVM then sets up.
    pub fn frame_init(&mut self)
        ensures
            old(self).frame_init_step(*final(self)),
    {
        self.handled.frame = false;
    }

    /// Whether the start of a transaction takes `self` to `post`.
    pub open spec fn transact_step(self, post: Self) -> bool {
        &&& self.same_but_handled(post)
        &&& !post.handled.frame()
        &&& !post.handled.tx()
    }

    /// Starts a transaction, which a handler then runs. Nothing of it has been handled yet, even
    /// where the transaction before it was never finalized.
    pub fn transact_one(&mut self)
        ensures
            old(self).transact_step(*final(self)),
    {
        self.handled.frame = false;
        self.handled.tx = false;
    }

    /// Whether the end of a transaction takes `self` to `post`.
    pub open spec fn finalize_step(self, post: Self) -> bool {
        &&& self.same_but_handled(post)
        &&& !post.handled.frame()
        &&& !post.handled.tx()
    }

    /// Ends a transaction, whose state the journal then hands over.
    pub fn finalize(&mut self)
        ensures
            old(self).finalize_step(*final(self)),
    {
        self.handled.frame = false;
        self.handled.tx = false;
    }

    /// One step of a replay: `event` has happened, and `action` is to be done next.
    pub open spec fn replay_step<R, X, S>(
        self,
        event: ReplayEvent<R, X, S>,
        post: Self,
        action: ReplayAction<R, X, S>,
    ) -> bool {
        match event {
            ReplayEvent::Begin => {
                &&& self.transact_step(post)
                &&& action == ReplayAction::<R, X, S>::RunHandler
            },
            ReplayEvent::HandlerReturned(Ok(result)) => {
                &&& self.finalize_step(post)
                &&& action == ReplayAction::<R, X, S>::FinalizeJournal { result }
            },
            ReplayEvent::HandlerReturned(Err(error)) => {
                &&& post == self
                &&& action == ReplayAction::<R, X, S>::Finish(Err(error))
            },
            ReplayEvent::JournalFinalized { result, state } => {
                &&& post == self
                &&& action == ReplayAction::<R, X, S>::Finish(Ok(ResultAndState { result, state }))
            },
        }
    }

    /// Takes a replay one step further: `event` has happened, and what to do next comes back.
    ///
    /// A replay starts with [`ReplayEvent::Begin`] and is over when the action is
    /// [`ReplayAction::Finish`]. It runs the transaction that is set already, from its start, and
    /// finalizes it if the run succeeded; a run that failed is left as it is.
    pub fn replay<R, X, S>(&mut self, event: ReplayEvent<R, X, S>) -> (action: ReplayAction<
        R,
        X,
        S,
    >)
        ensures
            old(self).replay_step(event, *final(self), action),
    {
        match event {
            ReplayEvent::Begin => {
                self.transact_one();
                ReplayAction::RunHandler
            },
            ReplayEvent::HandlerReturned(run) => match run {
                Ok(result) => {
                    self.finalize();
                    ReplayAction::FinalizeJournal { result }
                },
                Err(error) => ReplayAction::Finish(Err(error)),
            },
            ReplayEvent::JournalFinalized { result, state } => {
                ReplayAction::Finish(Ok(ResultAndState { result, state }))
            },
        }
    }

    /// One step of a frame: `event` has happened in `state`, and `action` is to be done next.
    pub open spec fn frame_run_step<F>(
        self,
        state: FrameState,
        event: FrameEvent<F>,
        post: Self,
        next: FrameState,
        action: FrameAction<F>,
    ) -> bool {
        let answered = event matches FrameEvent::FfiReturned { action: Some(_), .. };
        let returned = event matches FrameEvent::InterpreterReturned(InterpreterAction::Return(_));
        &&& self.same_but_handled(post)
        &&& post.handled.frame() == (self.handled.frame() || answered || returned)
        &&& post.handled.tx() == (self.handled.tx() || answered)
        &&& match event {
            FrameEvent::Begin => {
                &&& next == FrameState::Callback
                &&& action == FrameAction::<F>::InvokeCallback
            },
            FrameEvent::CallbackReturned { action: Some(custom), .. } => {
                &&& next == FrameState::Processing { mark_finished: true }
                &&& action == FrameAction::Process { load_first: None, action: custom }
            },
            FrameEvent::CallbackReturned { action: None, depth } => if self.may_ask_library(depth) {
                next == FrameState::Ffi && action == FrameAction::<F>::TryFfi
            } else {
                next == FrameState::Interpreter && action == FrameAction::<F>::RunInterpreter
            },
            FrameEvent::FfiReturned { action: Some(answer), target, caller } => {
                &&& next == FrameState::Processing { mark_finished: true }
                &&& action matches FrameAction::Process {
                    load_first: Some(accounts),
                    action: processed,
                } && accounts@ == seq![target, caller] && processed == answer
            },
            FrameEvent::FfiReturned { action: None, .. } => {
                next == FrameState::Interpreter && action == FrameAction::<F>::RunInterpreter
            },
            FrameEvent::InterpreterReturned(stop) => {
                &&& next == FrameState::Processing { mark_finished: false }
                &&& action == FrameAction::Process { load_first: None, action: stop }
            },
            FrameEvent::Processed(outcome) => {
                &&& next == FrameState::Finished
                &&& action == FrameAction::<F>::Finish {
                    set_finished: outcome == Processed::Result && state
                        == FrameState::Processing { mark_finished: true },
                }
            },
        }
    }

    /// Takes the run of a frame one step further: `event` has happened in `state`, and the new
    /// state comes back with what to do next.
    ///
    /// A run starts with [`FrameEvent::Begin`] in [`FrameState::Start`] and is over when the
    /// action is [`FrameAction::Finish`]. The callback is asked first, then the library, at the
    /// top level and until it has answered in the transaction, and the interpreter runs if neither
    /// gives an action.
    pub fn frame_run<F>(&mut self, state: FrameState, event: FrameEvent<F>) -> (step: (
        FrameState,
        FrameAction<F>,
    ))
        ensures
            old(self).frame_run_step(state, event, *final(self), step.0, step.1),
    {
        match event {
            FrameEvent::Begin => (FrameState::Callback, FrameAction::InvokeCallback),
            FrameEvent::CallbackReturned { action, depth } => match action {
                Some(custom) => (
                    FrameState::Processing { mark_finished: true },
                    FrameAction::Process { load_first: None, action: custom },
                ),
                None => {
                    if self.dl.is_some() && !self.handled.frame && !self.handled.tx
                        && depth == 0 {
                        (FrameState::Ffi, FrameAction::TryFfi)
                    } else {
                        (FrameState::Interpreter, FrameAction::RunInterpreter)
                    }
                },
            },
            FrameEvent::FfiReturned { action, target, caller } => match action {
                Some(answer) => {
                    self.handled.frame = true;
                    self.handled.tx = true;
                    let accounts: [Address; 2] = [target, caller];
                    assert(accounts@ =~= seq![target, caller]);
                    (
                        FrameState::Processing { mark_finished: true },
                        FrameAction::Process { load_first: Some(accounts), action: answer },
                    )
                },
                None => (FrameState::Interpreter, FrameAction::RunInterpreter),
            },
            FrameEvent::InterpreterReturned(stop) => {
                if let InterpreterAction::Return(_) = &stop {
                    self.handled.frame = true;
                }
                (
                    FrameState::Processing { mark_finished: false },
                    FrameAction::Process { load_first: None, action: stop },
                )
            },
            FrameEvent::Processed(outcome) => {
                let mark_finished = match state {
                    FrameState::Processing { mark_finished } => mark_finished,
                    _ => false,
                };
                let set_finished = mark_finished && outcome == Processed::Result;
                (FrameState::Finished, FrameAction::Finish { set_finished })
            },
        }
    }
}

/// One step of a frame as it took place.
pub struct FrameTransition<E, C, F> {
    /// The EVM before the step.
    pub pre: InlineAotEvm<E, C>,
    /// The state before the step.
    pub state: FrameState,
    /// What happened.
    pub event: FrameEvent<F>,
    /// The EVM after the step.
    pub post: InlineAotEvm<E, C>,
    /// The state after the step.
    pub next: FrameState,
    /// What was to be done next.
    pub action: FrameAction<F>,
}

impl<E, C, F> FrameTransition<E, C, F> {
    /// Whether [`InlineAotEvm::frame_run`] took this step.
    pub open spec fn is_step(self) -> bool {
        &&& self.state.awaits(self.event)
        &&& self.pre.frame_run_step(self.state, self.event, self.post, self.next, self.action)
    }
}

/// Whether `trace` is what [`InlineAotEvm::frame_run`] did in one run of a frame, from its start
/// to some point of it. Between two steps the EVM may change in any way that leaves alone what
/// has been handled.
pub open spec fn is_frame_run<E, C, F>(trace: Seq<FrameTransition<E, C, F>>) -> bool {
    &&& trace.len() > 0
    &&& trace[0].state == FrameState::Start
    &&& forall|i: int| 0 <= i < trace.len() ==> (#[trigger] trace[i]).is_step()
    &&& forall|i: int, j: int|
        0 <= i < trace.len() && 0 <= j < trace.len() && j == i + 1 ==> (#[trigger] trace[j]).state
            == (#[trigger] trace[i]).next && trace[j].pre.handled == trace[i].post.handled
}

/// How many more steps a run can take.
spec fn steps_left(state: FrameState) -> nat {
    match state {
        FrameState::Start => 5,
        FrameState::Callback => 4,
        FrameState::Ffi => 3,
        FrameState::Interpreter => 2,
        FrameState::Processing { .. } => 1,
        FrameState::Finished => 0,
    }
}

/// Whether the callback had no action for the frame.
pub open spec fn callback_declined<E, C, F>(trace: Seq<FrameTransition<E, C, F>>) -> bool {
    trace.len() >= 2 && trace[1].event matches FrameEvent::CallbackReturned { action: None, .. }
}

proof fn lemma_frame_run_so_far<E, C, F>(trace: Seq<FrameTransition<E, C, F>>, i: int)
    requires
        is_frame_run(trace),
        0 <= i < trace.len(),
    ensures
        i + steps_left(trace[i].state) <= 5,
        steps_left(trace[i].next) < steps_left(trace[i].state),
        i == 0 <==> trace[i].state == FrameState::Start,
        i == 1 <==> trace[i].state == FrameState::Callback,
        trace[i].state == FrameState::Ffi ==> i == 2,
        trace[i].state == FrameState::Ffi || trace[i].state == FrameState::Interpreter
            || trace[i].state == (FrameState::Processing { mark_finished: false })
            ==> callback_declined(trace),
        i <= 2 ==> trace[i].pre.handled.frame() == trace[0].pre.handled.frame()
            && trace[i].pre.handled.tx() == trace[0].pre.handled.tx(),
    decreases i,
{
    assert(trace[i].is_step());
    if i > 0 {
        lemma_frame_run_so_far(trace, i - 1);
        assert(trace[i - 1].is_step());
        assert(trace[i].state == trace[i - 1].next);
    }
}

/// Every run of a frame is over after at most five steps, and it is over exactly when the action
/// says so.
pub proof fn law_frame_run_ends<E, C, F>(trace: Seq<FrameTransition<E, C, F>>)
    requires
        is_frame_run(trace),
    ensures
        trace.len() <= 5,
        trace.len() == 5 ==> trace.last().next == FrameState::Finished,
        forall|i: int|
            0 <= i < trace.len() ==> (trace[i].next == FrameState::Finished <==> (
            #[trigger] trace[i]).action is Finish),
{
    assert forall|i: int| 0 <= i < trace.len() implies (trace[i].next == FrameState::Finished
        <==> (#[trigger] trace[i]).action is Finish) by {
        assert(trace[i].is_step());
    }
    lemma_frame_run_so_far(trace, trace.len() - 1);
}

/// What the callback gives is what is processed: neither the library nor the interpreter is asked
/// then, and nothing counts as handled that did not before.
pub proof fn law_callback_goes_first<E, C, F>(
    trace: Seq<FrameTransition<E, C, F>>,
    custom: InterpreterAction<F>,
)
    requires
        is_frame_run(trace),
        trace.len() >= 2,
        trace[1].event matches FrameEvent::CallbackReturned { action: Some(given), .. } && given
            == custom,
    ensures
        trace[0].action == FrameAction::<F>::InvokeCallback,
        trace[1].action == (FrameAction::Process { load_first: None, action: custom }),
        trace.len() <= 3,
        trace.len() == 3 ==> trace[2].action is Finish,
        trace.last().post.handled.frame() == trace[0].pre.handled.frame(),
        trace.last().post.handled.tx() == trace[0].pre.handled.tx(),
{
    assert(trace[0].is_step());
    assert(trace[1].is_step());
    lemma_frame_run_so_far(trace, 0);
    lemma_frame_run_so_far(trace, 1);
    if trace.len() >= 3 {
        assert(trace[2].is_step());
        assert(trace[2].state == trace[1].next);
        lemma_frame_run_so_far(trace, 2);
    }
    if trace.len() >= 4 {
        assert(trace[3].state == trace[2].next);
        assert(trace[3].is_step());
    }
}

/// The library is asked only after the callback gave nothing, for a frame at the top level, and
/// where neither the frame nor the transaction has been handled.
pub proof fn law_library_is_asked_at_top_level<E, C, F>(
    trace: Seq<FrameTransition<E, C, F>>,
    i: int,
)
    requires
        is_frame_run(trace),
        0 <= i < trace.len(),
        trace[i].action is TryFfi,
    ensures
        i == 1,
        trace[1].event matches FrameEvent::CallbackReturned { action: None, depth } && depth == 0,
        trace[1].pre.dl is Some,
        !trace[0].pre.handled.frame(),
        !trace[0].pre.handled.tx(),
{
    assert(trace[i].is_step());
    lemma_frame_run_so_far(trace, i);
}

/// The interpreter runs only where the callback gave nothing and the library either could not be
/// asked or gave nothing too.
pub proof fn law_interpreter_comes_last<E, C, F>(trace: Seq<FrameTransition<E, C, F>>, i: int)
    requires
        is_frame_run(trace),
        0 <= i < trace.len(),
        trace[i].action is RunInterpreter,
    ensures
        callback_declined(trace),
        i == 1 && (trace[1].event matches FrameEvent::CallbackReturned { depth, .. }
            && !trace[1].pre.may_ask_library(depth)) || i == 2 && trace[1].action is TryFfi && (
        trace[2].event matches FrameEvent::FfiReturned { action: None, .. }),
{
    assert(trace[i].is_step());
    lemma_frame_run_so_far(trace, i);
    if i == 2 {
        assert(trace[1].is_step());
        assert(trace[2].state == trace[1].next);
        lemma_frame_run_so_far(trace, 1);
    }
}

/// When a run is over, the frame is marked as finished exactly when processing gave its result
/// and the processed action was not the interpreter's.
pub proof fn law_finished_mark<E, C, F>(trace: Seq<FrameTransition<E, C, F>>)
    requires
        is_frame_run(trace),
        trace.last().next == FrameState::Finished,
    ensures
        trace.len() >= 3,
        trace.last().event matches FrameEvent::Processed(outcome) && trace.last().action
            == (FrameAction::<F>::Finish {
            set_finished: outcome == Processed::Result && !(trace[trace.len() - 2].event is
                InterpreterReturned),
        }),
{
    let last = trace.len() - 1;
    assert(trace[last].is_step());
    lemma_frame_run_so_far(trace, last);
    if last > 0 {
        assert(trace[last - 1].is_step());
        assert(trace[last].state == trace[last - 1].next);
        lemma_frame_run_so_far(trace, last - 1);
    }
}

/// Once a transaction is finalized, the library may be asked again for a top-level frame.
pub proof fn law_finalizing_admits_library<E, C>(
    pre: InlineAotEvm<E, C>,
    post: InlineAotEvm<E, C>,
)
    requires
        pre.finalize_step(post),
        pre.dl is Some,
    ensures
        post.may_ask_library(0),
{
}

/// Once a transaction has started, the library may be asked for its top-level frame, whether or
/// not the transaction before it was finalized.
pub proof fn law_new_transaction_admits_library<E, C>(
    pre: InlineAotEvm<E, C>,
    post: InlineAotEvm<E, C>,
)
    requires
        pre.transact_step(post),
        pre.dl is Some,
    ensures
        post.may_ask_library(0),
{
}

/// A replay is a transaction that is started, run and finalized. From the same EVM, with the same
/// transaction set, both call on the handler and on the journal in the same states, so both give
/// the same result and state and leave the same EVM.
///
/// `run` is what the handler does with an EVM and `journal` how it hands the journal's state over.
/// On one side, the start of a transaction takes `start` to `a1`, and finalizing takes the EVM
/// that the run left to `a2`. On the other, `b1`, `b2` and `b3` are what the three steps of a
/// replay leave, and `first`, `second` and `third` are what they ask for.
pub proof fn law_replay_is_transact_and_finalize<E, C, R, X, S>(
    run: spec_fn(InlineAotEvm<E, C>) -> (InlineAotEvm<E, C>, Result<R, X>),
    journal: spec_fn(InlineAotEvm<E, C>) -> (InlineAotEvm<E, C>, S),
    start: InlineAotEvm<E, C>,
    result: R,
    a1: InlineAotEvm<E, C>,
    a2: InlineAotEvm<E, C>,
    b1: InlineAotEvm<E, C>,
    first: ReplayAction<R, X, S>,
    b2: InlineAotEvm<E, C>,
    second: ReplayAction<R, X, S>,
    b3: InlineAotEvm<E, C>,
    third: ReplayAction<R, X, S>,
)
    requires
        start.transact_step(a1),
        run(a1).1 == Ok::<R, X>(result),
        run(a1).0.finalize_step(a2),
        start.replay_step(ReplayEvent::<R, X, S>::Begin, b1, first),
        run(b1).0.replay_step(ReplayEvent::<R, X, S>::HandlerReturned(run(b1).1), b2, second),
        second matches ReplayAction::FinalizeJournal { result: given } ==> journal(
            b2,
        ).0.replay_step(
            ReplayEvent::<R, X, S>::JournalFinalized { result: given, state: journal(b2).1 },
            b3,
            third,
        ),
    ensures
        first == ReplayAction::<R, X, S>::RunHandler,
        second == (ReplayAction::<R, X, S>::FinalizeJournal { result }),
        third == ReplayAction::<R, X, S>::Finish(
            Ok(ResultAndState { result, state: journal(a2).1 }),
        ),
        b3 == journal(a2).0,
{
    assert(b1 == a1);
    assert(b2 == a2);
}

/// A replay whose run fails is a transaction that is started and fails: it gives the same error and
/// leaves the same EVM, which nothing finalizes.
pub proof fn law_failed_replay_is_failed_transact<E, C, R, X, S>(
    run: spec_fn(InlineAotEvm<E, C>) -> (InlineAotEvm<E, C>, Result<R, X>),
    start: InlineAotEvm<E, C>,
    error: X,
    a1: InlineAotEvm<E, C>,
    b1: InlineAotEvm<E, C>,
    first: ReplayAction<R, X, S>,
    b2: InlineAotEvm<E, C>,
    second: ReplayAction<R, X, S>,
)
    requires
        start.transact_step(a1),
        run(a1).1 == Err::<R, X>(error),
        start.replay_step(ReplayEvent::<R, X, S>::Begin, b1, first),
        run(b1).0.replay_step(ReplayEvent::<R, X, S>::HandlerReturned(run(b1).1), b2, second),
    ensures
        first == ReplayAction::<R, X, S>::RunHandler,
        second == ReplayAction::<R, X, S>::Finish(Err(error)),
        b2 == run(a1).0,
{
    assert(b1 == a1);
}

/// Something that happened to the EVM.
pub enum EvmChange<E, C, F> {
    /// A transaction was started.
    Transact {
        /// The EVM before.
        pre: InlineAotEvm<E, C>,
        /// The EVM after.
        post: InlineAotEvm<E, C>,
    },
    /// A frame was set up.
    FrameInit {
        /// The EVM before.
        pre: InlineAotEvm<E, C>,
        /// The EVM after.
        post: InlineAotEvm<E, C>,
    },
    /// A frame was taken one step further.
    FrameRun(FrameTransition<E, C, F>),
    /// A transaction was finalized.
    Finalize {
        /// The EVM before.
        pre: InlineAotEvm<E, C>,
        /// The EVM after.
        post: InlineAotEvm<E, C>,
    },
}

impl<E, C, F> EvmChange<E, C, F> {
    /// What had been handled before.
    pub open spec fn before(self) -> Handled {
        match self {
            EvmChange::Transact { pre, .. } => pre.handled,
            EvmChange::FrameInit { pre, .. } => pre.handled,
            EvmChange::FrameRun(step) => step.pre.handled,
            EvmChange::Finalize { pre, .. } => pre.handled,
        }
    }

    /// What has been handled after.
    pub open spec fn after(self) -> Handled {
        match self {
            EvmChange::Transact { post, .. } => post.handled,
            EvmChange::FrameInit { post, .. } => post.handled,
            EvmChange::FrameRun(step) => step.post.handled,
            EvmChange::Finalize { post, .. } => post.handled,
        }
    }

    /// Whether the EVM's own functions made the change.
    pub open spec fn is_change(self) -> bool {
        match self {
            EvmChange::Transact { pre, post } => pre.transact_step(post),
            EvmChange::FrameInit { pre, post } => pre.frame_init_step(post),
            EvmChange::FrameRun(step) => step.is_step(),
            EvmChange::Finalize { pre, post } => pre.finalize_step(post),
        }
    }

    /// Whether the library answered a frame.
    pub open spec fn library_answered(self) -> bool {
        self matches EvmChange::FrameRun(step) && step.event matches FrameEvent::FfiReturned {
            action: Some(_),
            ..
        }
    }

    /// Whether the library is to be asked.
    pub open spec fn asks_library(self) -> bool {
        self matches EvmChange::FrameRun(step) && step.action is TryFfi
    }
}

/// Whether `history` is a series of changes to one EVM, each of which starts from what the one
/// before it left handled.
pub open spec fn is_history<E, C, F>(history: Seq<EvmChange<E, C, F>>) -> bool {
    &&& forall|k: int| 0 <= k < history.len() ==> (#[trigger] history[k]).is_change()
    &&& forall|k: int, l: int|
        0 <= k < history.len() && 0 <= l < history.len() && l == k + 1 ==> (
        #[trigger] history[l]).before() == (#[trigger] history[k]).after()
}

/// Whether the changes after `i`, up to `j`, neither start nor finalize a transaction.
pub open spec fn in_one_transaction<E, C, F>(
    history: Seq<EvmChange<E, C, F>>,
    i: int,
    j: int,
) -> bool {
    forall|k: int|
        i < k <= j ==> !((#[trigger] history[k]) is Transact) && !(history[k] is Finalize)
}

/// Once the library has answered, it is not asked again in the same transaction, whatever frames
/// are set up and run in the meantime.
pub proof fn law_library_answers_once_per_transaction<E, C, F>(
    history: Seq<EvmChange<E, C, F>>,
    i: int,
    j: int,
)
    requires
        is_history(history),
        0 <= i <= j < history.len(),
        history[i].library_answered(),
        in_one_transaction(history, i, j),
    ensures
        history[j].after().tx(),
        !history[j].asks_library(),
    decreases j,
{
    assert(history[j].is_change());
    if i < j {
        law_library_answers_once_per_transaction(history, i, j - 1);
        assert(history[j].before() == history[j - 1].after());
    }
}

/// A transaction counts as handled only if the library has answered in it: what earlier
/// transactions did makes no difference, finalized or not.
pub proof fn law_handled_transaction_was_answered<E, C, F>(
    history: Seq<EvmChange<E, C, F>>,
    i: int,
    j: int,
)
    requires
        is_history(history),
        0 <= i <= j < history.len(),
        history[i] is Transact,
        in_one_transaction(history, i, j),
        history[j].after().tx(),
    ensures
        exists|k: int| i < k <= j && (#[trigger] history[k]).library_answered(),
    decreases j,
{
    assert(history[j].is_change());
    if i < j && !history[j].library_answered() {
        assert(history[j].before() == history[j - 1].after());
        law_handled_transaction_was_answered(history, i, j - 1);
    }
}

/// A new EVM is made of the EVM and the callback it is given and asks no library. With a library it
/// is the same but for that, and asks it for a top-level frame from the start.
pub proof fn law_new_evm<E, C, F>(
    inner: E,
    callback: C,
    lib_path: PathBuf,
    symbol: &'static [u8],
    bare: InlineAotEvm<E, C>,
    with_library: InlineAotEvm<E, C>,
    bare_step: FrameTransition<E, C, F>,
    library_step: FrameTransition<E, C, F>,
)
    requires
        call_ensures(InlineAotEvm::<E, C>::from_evm, (inner, callback), bare),
        call_ensures(InlineAotEvm::<E, C>::with_ffi, (bare, lib_path, symbol), with_library),
        bare_step.is_step(),
        bare_step.pre == bare,
        bare_step.event == (FrameEvent::<F>::CallbackReturned { action: None, depth: 0 }),
        library_step.is_step(),
        library_step.pre == with_library,
        library_step.event == (FrameEvent::<F>::CallbackReturned { action: None, depth: 0 }),
    ensures
        bare.inner == inner,
        bare.callback == callback,
        bare.dl is None,
        with_library.inner == inner,
        with_library.callback == callback,
        with_library.dl matches Some(dl) && *dl.lib_path == lib_path && dl.symbol@ == symbol@
            && dl.lib@ is None,
        bare_step.action is RunInterpreter,
        library_step.action is TryFfi,
{
}

/// What is processed is what was given, unchanged. The callback's action, the library's answer and
/// the interpreter's own action are each processed as they came, whatever they hold; accounts are
/// loaded before the library's answer only, and they are the frame's target and the sender.
pub proof fn law_processed_action_is_the_one_given<E, C, F>(
    trace: Seq<FrameTransition<E, C, F>>,
    i: int,
)
    requires
        is_frame_run(trace),
        0 <= i < trace.len(),
    ensures
        trace[i].event matches FrameEvent::CallbackReturned { action: Some(custom), .. }
            ==> trace[i].action == (FrameAction::Process { load_first: None, action: custom }),
        trace[i].event matches FrameEvent::InterpreterReturned(stop) ==> trace[i].action == (
        FrameAction::Process { load_first: None, action: stop }),
        trace[i].event matches FrameEvent::FfiReturned { action: Some(answer), target, caller } ==> (
        trace[i].action matches FrameAction::Process { load_first: Some(accounts), action }
            && action == answer && accounts@[0] == target && accounts@[1] == caller),
        trace[i].action is Process ==> match trace[i].event {
            FrameEvent::CallbackReturned { action, .. } => action is Some,
            FrameEvent::FfiReturned { action, .. } => action is Some,
            FrameEvent::InterpreterReturned(_) => true,
            _ => false,
        },
{
    assert(trace[i].is_step());
}

/// A return of the interpreter is processed with its result, its output and its gas meter as they
/// are, and a new frame as it was described.
pub proof fn law_interpreters_return_is_not_altered<E, C, F>(
    trace: Seq<FrameTransition<E, C, F>>,
    i: int,
    stop: InterpreterAction<F>,
)
    requires
        is_frame_run(trace),
        0 <= i < trace.len(),
        trace[i].event == FrameEvent::InterpreterReturned(stop),
    ensures
        trace[i].action matches FrameAction::Process { load_first: None, action } && match (
            stop,
            action,
        ) {
            (InterpreterAction::Return(given), InterpreterAction::Return(processed)) => {
                &&& processed.result == given.result
                &&& processed.output == given.output
                &&& processed.gas == given.gas
            },
            (InterpreterAction::NewFrame(given), InterpreterAction::NewFrame(processed)) => {
                processed == given
            },
            _ => false,
        },
{
    assert(trace[i].is_step());
}

/// A run is never dropped: the callback is always asked, the interpreter runs when the library has
/// no answer, and what happens next is what was asked for, up to the end of the run.
pub proof fn law_frame_run_goes_on<E, C, F>(trace: Seq<FrameTransition<E, C, F>>, i: int)
    requires
        is_frame_run(trace),
        0 <= i < trace.len(),
    ensures
        trace[0].action is InvokeCallback,
        trace[i].event matches FrameEvent::CallbackReturned { action: None, .. } ==> trace[i].action
            is TryFfi || trace[i].action is RunInterpreter,
        trace[i].event matches FrameEvent::FfiReturned { action: None, .. } ==> trace[i].action is
            RunInterpreter,
        trace[i].event is Processed ==> trace[i].action is Finish,
        i + 1 < trace.len() ==> match trace[i].action {
            FrameAction::InvokeCallback => trace[i + 1].event is CallbackReturned,
            FrameAction::TryFfi => trace[i + 1].event is FfiReturned,
            FrameAction::RunInterpreter => trace[i + 1].event is InterpreterReturned,
            FrameAction::Process { .. } => trace[i + 1].event is Processed,
            FrameAction::Finish { .. } => false,
        },
{
    assert(trace[0].is_step());
    assert(trace[i].is_step());
    if i + 1 < trace.len() {
        let j = i + 1;
        assert(trace[j].state == trace[i].next);
        assert(trace[j].is_step());
    }
}

/// No step of a frame, and no start or end of a frame or a transaction, changes the inner EVM, the
/// callback or the library.
pub proof fn law_changes_leave_the_parts_alone<E, C, F>(change: EvmChange<E, C, F>)
    requires
        change.is_change(),
    ensures
        match change {
            EvmChange::Transact { pre, post } => {
                &&& post.inner == pre.inner
                &&& post.callback == pre.callback
                &&& post.dl == pre.dl
            },
            EvmChange::FrameInit { pre, post } => {
                &&& post.inner == pre.inner
                &&& post.callback == pre.callback
                &&& post.dl == pre.dl
            },
            EvmChange::FrameRun(step) => {
                &&& step.post.inner == step.pre.inner
                &&& step.post.callback == step.pre.callback
                &&& step.post.dl == step.pre.dl
            },
            EvmChange::Finalize { pre, post } => {
                &&& post.inner == pre.inner
                &&& post.callback == pre.callback
                &&& post.dl == pre.dl
            },
        },
{
}

impl<E, C, F> EvmChange<E, C, F> {
    /// Whether the interpreter returned from a frame.
    pub open spec fn interpreter_returned(self) -> bool {
        self matches EvmChange::FrameRun(step) && step.event matches FrameEvent::InterpreterReturned(
            InterpreterAction::Return(_),
        )
    }
}

/// Whether the library answered a frame at some change after `i`, up to `j`.
pub open spec fn answered_since<E, C, F>(
    history: Seq<EvmChange<E, C, F>>,
    i: int,
    j: int,
) -> bool {
    exists|k: int| i < k <= j && (#[trigger] history[k]).library_answered()
}

/// Whether the interpreter returned at some change after `i`, up to `j`, and no frame was set up
/// after that.
pub open spec fn returned_since<E, C, F>(
    history: Seq<EvmChange<E, C, F>>,
    i: int,
    j: int,
) -> bool {
    exists|k: int|
        i < k <= j && (#[trigger] history[k]).interpreter_returned() && forall|l: int|
            k < l <= j ==> !((#[trigger] history[l]) is FrameInit)
}

#[verifier::rlimit(40)]
proof fn lemma_handled_so_far<E, C, F>(history: Seq<EvmChange<E, C, F>>, i: int, j: int)
    requires
        is_history(history),
        0 <= i <= j < history.len(),
        history[i] is Transact || history[i] is Finalize,
        in_one_transaction(history, i, j),
    ensures
        history[j].after().tx() <==> answered_since(history, i, j),
        !answered_since(history, i, j) ==> (history[j].after().frame() <==> returned_since(
            history,
            i,
            j,
        )),
    decreases j,
{
    assert(history[j].is_change());
    if i < j {
        lemma_handled_so_far(history, i, j - 1);
        assert(history[j].before() == history[j - 1].after());
        if answered_since(history, i, j - 1) {
            let k = choose|k: int| i < k <= j - 1 && (#[trigger] history[k]).library_answered();
            assert(history[k].library_answered());
        }
        if history[j].library_answered() {
            assert(answered_since(history, i, j));
        }
        if answered_since(history, i, j) && !history[j].library_answered() {
            let k = choose|k: int| i < k <= j && (#[trigger] history[k]).library_answered();
            assert(history[k].library_answered() && k <= j - 1);
        }
        if !answered_since(history, i, j) {
            if history[j].interpreter_returned() {
                assert(returned_since(history, i, j));
            } else if history[j] is FrameInit {
                assert(!returned_since(history, i, j));
            } else {
                if returned_since(history, i, j - 1) {
                    let k = choose|k: int|
                        i < k <= j - 1 && (#[trigger] history[k]).interpreter_returned()
                            && forall|l: int|
                            k < l <= j - 1 ==> !((#[trigger] history[l]) is FrameInit);
                    assert(history[k].interpreter_returned());
                    assert forall|l: int| k < l <= j implies !((#[trigger] history[l]) is
                        FrameInit) by {}
                    assert(returned_since(history, i, j));
                }
                if returned_since(history, i, j) {
                    let k = choose|k: int|
                        i < k <= j && (#[trigger] history[k]).interpreter_returned() && forall|l: int|
                            k < l <= j ==> !((#[trigger] history[l]) is FrameInit);
                    assert(history[k].interpreter_returned() && k <= j - 1);
                    assert(returned_since(history, i, j - 1));
                }
            }
        }
    }
}

/// When the callback has nothing for a frame, the library is asked exactly when there is one, the
/// frame is at the top level, the library has not answered in the transaction, and the interpreter
/// has not returned since a frame was last set up; else the interpreter runs. A transaction is
/// counted from its start, or from the end of the one before it, at `i`.
pub proof fn law_when_the_library_is_asked<E, C, F>(
    history: Seq<EvmChange<E, C, F>>,
    i: int,
    j: int,
    step: FrameTransition<E, C, F>,
    depth: usize,
)
    requires
        is_history(history),
        0 <= i < j < history.len(),
        history[i] is Transact || history[i] is Finalize,
        in_one_transaction(history, i, j),
        history[j] == EvmChange::FrameRun(step),
        step.event == (FrameEvent::<F>::CallbackReturned { action: None, depth }),
    ensures
        step.action is TryFfi <==> step.pre.dl is Some && depth == 0 && !answered_since(
            history,
            i,
            j - 1,
        ) && !returned_since(history, i, j - 1),
        step.action is RunInterpreter <==> !(step.action is TryFfi),
{
    lemma_handled_so_far(history, i, j - 1);
    assert(history[j].is_change());
    assert(history[j].before() == history[j - 1].after());
}

/// Giving an EVM a library, in the middle of a transaction too, forgets nothing: where the library
/// has answered, or the frame has returned, the new one is not asked either.
pub proof fn law_new_library_forgets_nothing<E, C, F>(
    evm: InlineAotEvm<E, C>,
    lib_path: PathBuf,
    symbol: &'static [u8],
    with_library: InlineAotEvm<E, C>,
    step: FrameTransition<E, C, F>,
)
    requires
        call_ensures(InlineAotEvm::<E, C>::with_ffi, (evm, lib_path, symbol), with_library),
        step.is_step(),
        step.pre == with_library,
        step.event == (FrameEvent::<F>::CallbackReturned { action: None, depth: 0 }),
    ensures
        step.action is TryFfi <==> !evm.handled.frame() && !evm.handled.tx(),
{
}

/// An answer of the library handles the frame and the transaction, a return of the interpreter
/// handles the frame alone, and nothing else that happens in a run handles either or undoes it.
pub proof fn law_what_handles_a_frame<E, C, F>(trace: Seq<FrameTransition<E, C, F>>, i: int)
    requires
        is_frame_run(trace),
        0 <= i < trace.len(),
    ensures
        match trace[i].event {
            FrameEvent::FfiReturned { action: Some(_), .. } => {
                &&& trace[i].post.handled.frame()
                &&& trace[i].post.handled.tx()
            },
            FrameEvent::InterpreterReturned(InterpreterAction::Return(_)) => {
                &&& trace[i].post.handled.frame()
                &&& trace[i].post.handled.tx() == trace[i].pre.handled.tx()
            },
            _ => {
                &&& trace[i].post.handled.frame() == trace[i].pre.handled.frame()
                &&& trace[i].post.handled.tx() == trace[i].pre.handled.tx()
            },
        },
{
    assert(trace[i].is_step());
}

} // verus!
