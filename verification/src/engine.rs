//! The part of the interpreter's data that dispatch decisions read and write.

use alloy_primitives::Bytes;
use std::ops::Range;
use vstd::prelude::*;

verus! {

/// An account address.
pub type Address = [u8; 20];

/// A code hash.
pub type CodeHash = [u8; 32];

/// What memory has cost a frame so far.
#[derive(Clone, Copy, Debug, PartialEq, Eq, Structural)]
pub struct MemoryGas {
    /// Memory size in words.
    pub words_num: usize,
    /// Gas paid for growing to that size.
    pub expansion_cost: u64,
}

/// A frame's gas meter.
#[derive(Clone, Copy, Debug, PartialEq, Eq, Structural)]
pub struct Gas {
    /// Gas that the frame was given.
    pub limit: u64,
    /// Gas that is left.
    pub remaining: u64,
    /// Gas to be refunded.
    pub refunded: i64,
    /// Memory cost so far.
    pub memory: MemoryGas,
}

impl Gas {
    /// A meter on which nothing has been spent.
    pub fn new(limit: u64) -> (gas: Gas)
        ensures
            gas.limit == limit,
            gas.remaining == limit,
            gas.refunded == 0,
            gas.memory.words_num == 0,
            gas.memory.expansion_cost == 0,
    {
        Gas {
            limit,
            remaining: limit,
            refunded: 0,
            memory: MemoryGas { words_num: 0, expansion_cost: 0 },
        }
    }
}

/// Where a call's input lies.
#[derive(Debug)]
pub enum CallInput {
    /// In the memory that the frames of a transaction share.
    SharedBuffer(Range<usize>),
    /// In a buffer of its own.
    Bytes(Bytes),
}

/// A call as a precompile provider receives it.
#[derive(Debug)]
pub struct CallInputs {
    /// The call's input.
    pub input: CallInput,
    /// Gas that the call may use.
    pub gas_limit: u64,
    /// The account whose code is to run.
    pub bytecode_address: Address,
}

/// How an execution ended.
#[derive(Clone, Copy, Debug, PartialEq, Eq, Structural)]
pub enum InstructionResult {
    /// It returned.
    Return,
    /// It reverted.
    Revert,
    /// It ended in another of the interpreter's ways, given by its code.
    Other(u8),
}

/// What an execution left behind.
#[derive(Debug)]
pub struct InterpreterResult {
    /// How it ended.
    pub result: InstructionResult,
    /// What it returned.
    pub output: Bytes,
    /// Its gas meter.
    pub gas: Gas,
}

/// What the interpreter wants done next. `F` describes a new frame.
#[derive(Debug)]
pub enum InterpreterAction<F> {
    /// Open a new frame.
    NewFrame(F),
    /// End the current frame.
    Return(InterpreterResult),
}

impl<F> InterpreterAction<F> {
    /// The action that ends the current frame with the given result.
    pub fn new_return(result: InstructionResult, output: Bytes, gas: Gas) -> (action: Self)
        ensures
            action == InterpreterAction::<F>::Return(InterpreterResult { result, output, gas }),
    {
        InterpreterAction::Return(InterpreterResult { result, output, gas })
    }
}

/// The input side of a frame.
#[derive(Debug)]
pub struct FrameInputs {
    /// The account that the frame runs as.
    pub target_address: Address,
    /// The account whose code runs, where it is known.
    pub bytecode_address: Option<Address>,
    /// The call's input.
    pub input: CallInput,
}

impl FrameInputs {
    /// The account whose code runs: the target where nothing else is known.
    pub open spec fn spec_code_account(&self) -> Address {
        match self.bytecode_address {
            Some(address) => address,
            None => self.target_address,
        }
    }

    /// The account whose code runs: the target where nothing else is known.
    pub fn code_account(&self) -> (account: Address)
        ensures
            account == self.spec_code_account(),
    {
        match self.bytecode_address {
            Some(address) => address,
            None => self.target_address,
        }
    }
}

/// A frame's interpreter.
#[derive(Debug)]
pub struct Interpreter {
    /// Its input.
    pub input: FrameInputs,
    /// Its gas meter.
    pub gas: Gas,
}

/// A fresh meter has the limit asked for, all of it left, and nothing spent, refunded or paid for
/// memory.
pub proof fn law_fresh_meter(limit: u64, gas: Gas)
    requires
        call_ensures(Gas::new, (limit,), gas),
    ensures
        gas == (Gas {
            limit,
            remaining: limit,
            refunded: 0,
            memory: MemoryGas { words_num: 0, expansion_cost: 0 },
        }),
{
}

/// A return action holds what it was made of.
pub proof fn law_return_action_holds_its_parts<F>(
    result: InstructionResult,
    output: Bytes,
    gas: Gas,
    action: InterpreterAction<F>,
)
    requires
        call_ensures(InterpreterAction::<F>::new_return, (result, output, gas), action),
    ensures
        action matches InterpreterAction::Return(ended) && ended.result == result && ended.output
            == output && ended.gas == gas,
{
}

/// The code account is the bytecode address where it is known, and else the target.
pub proof fn law_code_account(inputs: FrameInputs, account: Address)
    requires
        call_ensures(FrameInputs::code_account, (&inputs,), account),
    ensures
        inputs.bytecode_address matches Some(address) ==> account == address,
        inputs.bytecode_address is None ==> account == inputs.target_address,
{
}

} // verus!
