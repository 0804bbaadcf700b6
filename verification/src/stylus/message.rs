//! What passes between a Stylus program, the request handler and the EVM host.
//!
//! Types that hold byte strings are generic in how they hold them: `Vec<u8>` in running code,
//! `Seq<u8>` in specifications. The view of a running value replaces the one by the other.

use std::ops::Range;
use vstd::prelude::*;

use crate::gas::{AccountLoad, SStoreResult};
use crate::spec_id::SpecId;
use crate::wire::{Address, Word};

verus! {

/// The host functions that a Stylus program can request.
#[derive(Clone, Copy, Debug, PartialEq, Eq, Structural)]
pub enum EvmApiMethod {
    GetBytes32,
    SetTrieSlots,
    GetTransientBytes32,
    SetTransientBytes32,
    ContractCall,
    DelegateCall,
    StaticCall,
    Create1,
    Create2,
    EmitLog,
    AccountBalance,
    AccountCode,
    AccountCodeHash,
    AddPages,
    CaptureHostIO,
}

/// The outcome of a request, as far as a status says it.
#[derive(Clone, Copy, Debug, PartialEq, Eq, Structural)]
pub enum Status {
    Success,
    Failure,
    OutOfGas,
    WriteProtection,
}

impl Status {
    /// The byte that stands for the status in an answer.
    pub open spec fn code(self) -> u8 {
        match self {
            Status::Success => 0,
            Status::Failure => 1,
            Status::OutOfGas => 2,
            Status::WriteProtection => 3,
        }
    }

    /// Returns the status as the single byte of an answer.
    pub fn to_bytes(self) -> (bytes: Vec<u8>)
        ensures
            bytes@ == seq![self.code()],
    {
        match self {
            Status::Success => vec![0],
            Status::Failure => vec![1],
            Status::OutOfGas => vec![2],
            Status::WriteProtection => vec![3],
        }
    }
}

/// What the handler reads of the host's configuration.
#[derive(Clone, Copy, Debug, PartialEq, Eq)]
pub struct Cfg {
    /// The hard fork whose rules are in force.
    pub spec: SpecId,
    /// The largest contract code, in bytes.
    pub max_code_size: usize,
}

/// A value that the host loaded, and whether this was the first access to it in the transaction.
#[derive(Debug, PartialEq, Eq)]
pub struct StateLoad<T> {
    pub data: T,
    pub is_cold: bool,
}

/// How the code of a called contract is run.
#[derive(Clone, Copy, Debug, PartialEq, Eq, Structural)]
pub enum CallScheme {
    /// In its own context.
    Call,
    /// In the context of the caller.
    DelegateCall,
    /// In its own context, without the right to change state.
    StaticCall,
}

/// A call as the program requested it.
#[derive(Debug, PartialEq, Eq)]
pub struct CallRequest<B> {
    pub scheme: CallScheme,
    pub address: Address,
    pub value: Word,
    pub gas_left: u64,
    pub gas_limit: u64,
    pub calldata: B,
}

/// The value that goes with a call.
#[derive(Clone, Copy, Debug, PartialEq, Eq)]
pub enum CallValue {
    /// Moved from the caller to the target.
    Transfer(Word),
    /// Only shown to the callee.
    Apparent(Word),
}

/// A call frame for the host to run.
#[derive(Debug, PartialEq, Eq)]
pub struct CallInputs<B> {
    pub input: B,
    /// Where in the memory of the caller the host puts the output.
    pub return_memory_offset: Range<usize>,
    pub gas_limit: u64,
    /// The account whose code runs.
    pub bytecode_address: Address,
    /// The account whose storage the code sees.
    pub target_address: Address,
    pub caller: Address,
    pub value: CallValue,
    pub scheme: CallScheme,
    pub is_static: bool,
    /// Whether the call comes from code in the EVM object format.
    pub is_eof: bool,
}

/// How the address of a new contract is derived.
#[derive(Clone, Copy, Debug, PartialEq, Eq)]
pub enum CreateScheme {
    /// From the creator's nonce.
    Create,
    /// From a salt and the init code.
    Create2 { salt: Word },
}

/// A contract creation for the host to run.
#[derive(Debug, PartialEq, Eq)]
pub struct CreateInputs<B> {
    pub caller: Address,
    pub scheme: CreateScheme,
    pub value: Word,
    pub init_code: B,
    pub gas_limit: u64,
}

/// A log entry; `topics` is a list of words.
#[derive(Debug, PartialEq, Eq)]
pub struct Log<B, T> {
    pub address: Address,
    pub topics: T,
    pub data: B,
}

/// One operation for the host to perform.
#[derive(Debug, PartialEq, Eq)]
pub enum Action<B, T> {
    Sload { address: Address, slot: Word },
    Sstore { address: Address, key: Word, value: Word },
    Tload { address: Address, slot: Word },
    Tstore { address: Address, key: Word, value: Word },
    LoadAccount { address: Address },
    Call(CallInputs<B>),
    Create(CreateInputs<B>),
    EmitLog(Log<B, T>),
    Balance { address: Address },
    Code { address: Address },
    CodeHash { address: Address },
}

/// How a frame ended, as far as the handler tells the endings apart.
#[derive(Clone, Copy, Debug, PartialEq, Eq, Structural)]
pub enum InstructionResult {
    Return,
    Revert,
    Other,
}

/// The gas that a frame was given and what it left of it.
#[derive(Clone, Copy, Debug, PartialEq, Eq, Structural)]
pub struct FrameGas {
    pub limit: u64,
    pub remaining: u64,
}

/// What a frame returned.
#[derive(Debug, PartialEq, Eq)]
pub struct InterpreterResult<B> {
    pub result: InstructionResult,
    pub output: B,
    pub gas: FrameGas,
}

/// A finished frame; creations also give the address of the new contract, if there is one.
#[derive(Debug, PartialEq, Eq)]
pub enum FrameResult<B> {
    Call(InterpreterResult<B>),
    Create(InterpreterResult<B>, Option<Address>),
    EofCreate(InterpreterResult<B>, Option<Address>),
}

/// The host's reply to an action; `None` where the host failed to load or store.
#[derive(Debug, PartialEq, Eq)]
pub enum Reply<B> {
    Sload(Option<StateLoad<Word>>),
    Sstore(Option<StateLoad<SStoreResult>>),
    Tload(Word),
    Tstore,
    LoadAccount(Option<StateLoad<AccountLoad>>),
    Frame(FrameResult<B>),
    EmitLog,
    Balance(Option<StateLoad<Word>>),
    Code(Option<StateLoad<B>>),
    CodeHash(Option<StateLoad<Word>>),
}

/// What the handler remembers of a request while the host performs an action for it.
#[derive(Debug, PartialEq, Eq)]
pub enum Pending<B> {
    Sload,
    /// A write of storage slots: the gas offered, the gas charged so far, and the encoded slots
    /// that follow the one being written.
    Sstore { gas_left: u64, total_cost: u64, rest: B },
    Tload,
    Tstore,
    LoadAccount(CallRequest<B>),
    CallFrame { gas_limit: u64, call_cost: u64 },
    CreateFrame { gas_remaining: u64, gas_cost: u64 },
    EmitLog,
    Balance,
    Code,
    CodeHash,
}

/// The answer to a request: its result, the data that it returns and an amount of gas.
#[derive(Debug, PartialEq, Eq)]
pub struct Response<B> {
    pub result: B,
    pub data: B,
    pub gas: u64,
}

/// What the handler does next: have the host act and wait for its reply, or answer.
#[derive(Debug, PartialEq, Eq)]
pub enum Step<B, T> {
    Act(Action<B, T>, Pending<B>),
    Done(Response<B>),
}

impl View for CallRequest<Vec<u8>> {
    type V = CallRequest<Seq<u8>>;

    open spec fn view(&self) -> CallRequest<Seq<u8>> {
        CallRequest {
            scheme: self.scheme,
            address: self.address,
            value: self.value,
            gas_left: self.gas_left,
            gas_limit: self.gas_limit,
            calldata: self.calldata@,
        }
    }
}

impl View for CallInputs<Vec<u8>> {
    type V = CallInputs<Seq<u8>>;

    open spec fn view(&self) -> CallInputs<Seq<u8>> {
        CallInputs {
            input: self.input@,
            return_memory_offset: self.return_memory_offset,
            gas_limit: self.gas_limit,
            bytecode_address: self.bytecode_address,
            target_address: self.target_address,
            caller: self.caller,
            value: self.value,
            scheme: self.scheme,
            is_static: self.is_static,
            is_eof: self.is_eof,
        }
    }
}

impl View for CreateInputs<Vec<u8>> {
    type V = CreateInputs<Seq<u8>>;

    open spec fn view(&self) -> CreateInputs<Seq<u8>> {
        CreateInputs {
            caller: self.caller,
            scheme: self.scheme,
            value: self.value,
            init_code: self.init_code@,
            gas_limit: self.gas_limit,
        }
    }
}

impl View for Log<Vec<u8>, Vec<Word>> {
    type V = Log<Seq<u8>, Seq<Word>>;

    open spec fn view(&self) -> Log<Seq<u8>, Seq<Word>> {
        Log { address: self.address, topics: self.topics@, data: self.data@ }
    }
}

impl View for Action<Vec<u8>, Vec<Word>> {
    type V = Action<Seq<u8>, Seq<Word>>;

    open spec fn view(&self) -> Action<Seq<u8>, Seq<Word>> {
        match *self {
            Action::Sload { address, slot } => Action::Sload { address, slot },
            Action::Sstore { address, key, value } => Action::Sstore { address, key, value },
            Action::Tload { address, slot } => Action::Tload { address, slot },
            Action::Tstore { address, key, value } => Action::Tstore { address, key, value },
            Action::LoadAccount { address } => Action::LoadAccount { address },
            Action::Call(inputs) => Action::Call(inputs@),
            Action::Create(inputs) => Action::Create(inputs@),
            Action::EmitLog(log) => Action::EmitLog(log@),
            Action::Balance { address } => Action::Balance { address },
            Action::Code { address } => Action::Code { address },
            Action::CodeHash { address } => Action::CodeHash { address },
        }
    }
}

impl View for InterpreterResult<Vec<u8>> {
    type V = InterpreterResult<Seq<u8>>;

    open spec fn view(&self) -> InterpreterResult<Seq<u8>> {
        InterpreterResult { result: self.result, output: self.output@, gas: self.gas }
    }
}

impl View for FrameResult<Vec<u8>> {
    type V = FrameResult<Seq<u8>>;

    open spec fn view(&self) -> FrameResult<Seq<u8>> {
        match *self {
            FrameResult::Call(result) => FrameResult::Call(result@),
            FrameResult::Create(result, address) => FrameResult::Create(result@, address),
            FrameResult::EofCreate(result, address) => FrameResult::EofCreate(result@, address),
        }
    }
}

impl View for Reply<Vec<u8>> {
    type V = Reply<Seq<u8>>;

    open spec fn view(&self) -> Reply<Seq<u8>> {
        match *self {
            Reply::Sload(load) => Reply::Sload(load),
            Reply::Sstore(stored) => Reply::Sstore(stored),
            Reply::Tload(value) => Reply::Tload(value),
            Reply::Tstore => Reply::Tstore,
            Reply::LoadAccount(load) => Reply::LoadAccount(load),
            Reply::Frame(result) => Reply::Frame(result@),
            Reply::EmitLog => Reply::EmitLog,
            Reply::Balance(load) => Reply::Balance(load),
            Reply::Code(None) => Reply::Code(None),
            Reply::Code(Some(load)) => Reply::Code(
                Some(StateLoad { data: load.data@, is_cold: load.is_cold }),
            ),
            Reply::CodeHash(load) => Reply::CodeHash(load),
        }
    }
}

impl View for Pending<Vec<u8>> {
    type V = Pending<Seq<u8>>;

    open spec fn view(&self) -> Pending<Seq<u8>> {
        match *self {
            Pending::Sload => Pending::Sload,
            Pending::Sstore { gas_left, total_cost, rest } => Pending::Sstore {
                gas_left,
                total_cost,
                rest: rest@,
            },
            Pending::Tload => Pending::Tload,
            Pending::Tstore => Pending::Tstore,
            Pending::LoadAccount(request) => Pending::LoadAccount(request@),
            Pending::CallFrame { gas_limit, call_cost } => Pending::CallFrame { gas_limit, call_cost },
            Pending::CreateFrame { gas_remaining, gas_cost } => Pending::CreateFrame {
                gas_remaining,
                gas_cost,
            },
            Pending::EmitLog => Pending::EmitLog,
            Pending::Balance => Pending::Balance,
            Pending::Code => Pending::Code,
            Pending::CodeHash => Pending::CodeHash,
        }
    }
}

impl View for Response<Vec<u8>> {
    type V = Response<Seq<u8>>;

    open spec fn view(&self) -> Response<Seq<u8>> {
        Response { result: self.result@, data: self.data@, gas: self.gas }
    }
}

impl View for Step<Vec<u8>, Vec<Word>> {
    type V = Step<Seq<u8>, Seq<Word>>;

    open spec fn view(&self) -> Step<Seq<u8>, Seq<Word>> {
        match *self {
            Step::Act(action, pending) => Step::Act(action@, pending@),
            Step::Done(response) => Step::Done(response@),
        }
    }
}

/// The bytes of the statuses: zero for success, then failure, out of gas and write protection.
pub proof fn law_status_bytes(status: Status)
    ensures
        status == Status::Success <==> status.code() == 0,
        status == Status::Failure <==> status.code() == 1,
        status == Status::OutOfGas <==> status.code() == 2,
        status == Status::WriteProtection <==> status.code() == 3,
{
}

/// The view of an action names the same operation on the same values.
pub proof fn law_action_view(action: Action<Vec<u8>, Vec<Word>>)
    ensures
        match (action, action@) {
            (Action::Sload { address, slot }, Action::Sload { address: a, slot: s }) => {
                a == address && s == slot
            },
            (Action::Sstore { address, key, value }, Action::Sstore { address: a, key: k, value: v }) => {
                a == address && k == key && v == value
            },
            (Action::Tload { address, slot }, Action::Tload { address: a, slot: s }) => {
                a == address && s == slot
            },
            (Action::Tstore { address, key, value }, Action::Tstore { address: a, key: k, value: v }) => {
                a == address && k == key && v == value
            },
            (Action::LoadAccount { address }, Action::LoadAccount { address: a }) => a == address,
            (Action::Call(inputs), Action::Call(seen)) => {
                &&& seen.input == inputs.input@
                &&& seen.return_memory_offset == inputs.return_memory_offset
                &&& seen.gas_limit == inputs.gas_limit
                &&& seen.bytecode_address == inputs.bytecode_address
                &&& seen.target_address == inputs.target_address
                &&& seen.caller == inputs.caller
                &&& seen.value == inputs.value
                &&& seen.scheme == inputs.scheme
                &&& seen.is_static == inputs.is_static
                &&& seen.is_eof == inputs.is_eof
            },
            (Action::Create(inputs), Action::Create(seen)) => {
                &&& seen.caller == inputs.caller
                &&& seen.scheme == inputs.scheme
                &&& seen.value == inputs.value
                &&& seen.init_code == inputs.init_code@
                &&& seen.gas_limit == inputs.gas_limit
            },
            (Action::EmitLog(log), Action::EmitLog(seen)) => {
                &&& seen.address == log.address
                &&& seen.topics == log.topics@
                &&& seen.data == log.data@
            },
            (Action::Balance { address }, Action::Balance { address: a }) => a == address,
            (Action::Code { address }, Action::Code { address: a }) => a == address,
            (Action::CodeHash { address }, Action::CodeHash { address: a }) => a == address,
            _ => false,
        },
{
}

/// Whether `seen` is what `outcome` looks like in specifications.
pub open spec fn is_view_of_outcome(
    outcome: InterpreterResult<Vec<u8>>,
    seen: InterpreterResult<Seq<u8>>,
) -> bool {
    &&& seen.result == outcome.result
    &&& seen.output == outcome.output@
    &&& seen.gas.limit == outcome.gas.limit
    &&& seen.gas.remaining == outcome.gas.remaining
}

/// The view of a reply says the same of the same values.
pub proof fn law_reply_view(reply: Reply<Vec<u8>>)
    ensures
        match (reply, reply@) {
            (Reply::Sload(load), Reply::Sload(seen)) => seen == load,
            (Reply::Sstore(stored), Reply::Sstore(seen)) => seen == stored,
            (Reply::Tload(value), Reply::Tload(seen)) => seen == value,
            (Reply::Tstore, Reply::Tstore) => true,
            (Reply::LoadAccount(load), Reply::LoadAccount(seen)) => seen == load,
            (Reply::Frame(FrameResult::Call(outcome)), Reply::Frame(FrameResult::Call(seen))) => {
                is_view_of_outcome(outcome, seen)
            },
            (
                Reply::Frame(FrameResult::Create(outcome, address)),
                Reply::Frame(FrameResult::Create(seen, a)),
            ) => is_view_of_outcome(outcome, seen) && a == address,
            (
                Reply::Frame(FrameResult::EofCreate(outcome, address)),
                Reply::Frame(FrameResult::EofCreate(seen, a)),
            ) => is_view_of_outcome(outcome, seen) && a == address,
            (Reply::EmitLog, Reply::EmitLog) => true,
            (Reply::Balance(load), Reply::Balance(seen)) => seen == load,
            (Reply::Code(None), Reply::Code(None)) => true,
            (Reply::Code(Some(load)), Reply::Code(Some(seen))) => {
                seen.data == load.data@ && seen.is_cold == load.is_cold
            },
            (Reply::CodeHash(load), Reply::CodeHash(seen)) => seen == load,
            _ => false,
        },
{
}

/// The view of what is pending remembers the same.
pub proof fn law_pending_view(pending: Pending<Vec<u8>>)
    ensures
        match (pending, pending@) {
            (Pending::Sload, Pending::Sload) => true,
            (
                Pending::Sstore { gas_left, total_cost, rest },
                Pending::Sstore { gas_left: left, total_cost: cost, rest: slots },
            ) => left == gas_left && cost == total_cost && slots == rest@,
            (Pending::Tload, Pending::Tload) => true,
            (Pending::Tstore, Pending::Tstore) => true,
            (Pending::LoadAccount(request), Pending::LoadAccount(seen)) => {
                &&& seen.scheme == request.scheme
                &&& seen.address == request.address
                &&& seen.value == request.value
                &&& seen.gas_left == request.gas_left
                &&& seen.gas_limit == request.gas_limit
                &&& seen.calldata == request.calldata@
            },
            (
                Pending::CallFrame { gas_limit, call_cost },
                Pending::CallFrame { gas_limit: limit, call_cost: cost },
            ) => limit == gas_limit && cost == call_cost,
            (
                Pending::CreateFrame { gas_remaining, gas_cost },
                Pending::CreateFrame { gas_remaining: remaining, gas_cost: cost },
            ) => remaining == gas_remaining && cost == gas_cost,
            (Pending::EmitLog, Pending::EmitLog) => true,
            (Pending::Balance, Pending::Balance) => true,
            (Pending::Code, Pending::Code) => true,
            (Pending::CodeHash, Pending::CodeHash) => true,
            _ => false,
        },
{
}

/// The view of a step is that of its action and of what is pending, or that of the answer.
pub proof fn law_step_view(step: Step<Vec<u8>, Vec<Word>>)
    ensures
        match (step, step@) {
            (Step::Act(action, pending), Step::Act(seen, waiting)) => {
                seen == action@ && waiting == pending@
            },
            (Step::Done(response), Step::Done(seen)) => {
                &&& seen.result == response.result@
                &&& seen.data == response.data@
                &&& seen.gas == response.gas
            },
            _ => false,
        },
{
}

} // verus!
