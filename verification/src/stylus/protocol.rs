//! What the request handler does: which action each request leads to, and which answer each reply.

use std::ops::Range;
use vstd::prelude::*;

use crate::gas;
use crate::spec_id::SpecId;
use crate::stylus::handler::StylusHandler;
use crate::stylus::message::{
    Action, CallInputs, CallRequest, CallScheme, CallValue, Cfg, CreateInputs, CreateScheme,
    EvmApiMethod, FrameGas, FrameResult, InstructionResult, InterpreterResult, Log, Pending, Reply, Response,
    StateLoad, Status, Step,
};
use crate::wire::{address_at, be_value, is_zero_word, word_at, Address, Word};

verus! {

/// A step in specifications.
pub type StepView = Step<Seq<u8>, Seq<Word>>;

/// The `u64` in the eight bytes of `data` that start at `at`.
pub open spec fn u64_at(data: Seq<u8>, at: int) -> u64 {
    be_value(data.subrange(at, at + 8)) as u64
}

/// The number of topics that an encoded log announces.
pub open spec fn topic_count(data: Seq<u8>) -> nat {
    be_value(data.take(4))
}

/// The answer that consists of a status and an amount of gas.
pub open spec fn status_response(status: Status, gas: u64) -> Response<Seq<u8>> {
    Response { result: seq![status.code()], data: Seq::empty(), gas }
}

/// The answer that consists of 32 bytes and an amount of gas.
pub open spec fn word_response(word: Word, gas: u64) -> Response<Seq<u8>> {
    Response { result: word@, data: Seq::empty(), gas }
}

/// The answer without result and data.
pub open spec fn empty_response(gas: u64) -> Response<Seq<u8>> {
    Response { result: Seq::empty(), data: Seq::empty(), gas }
}

/// The price of touching an account, and its code if `with_code`.
pub open spec fn account_touch_price(cfg: Cfg, is_cold: bool, with_code: bool) -> u64 {
    let code: int = if with_code {
        cfg.max_code_size as int / gas::CODE_SIZE_UNIT as int * gas::CODE_TOUCH
    } else {
        0
    };
    (code + gas::account_price(is_cold)) as u64
}

/// All but one part in 64 of `gas`, rounded up, from the fork on that holds gas back from callees;
/// all of it before.
pub open spec fn gas_for_callee(spec: SpecId, gas: u64) -> u64 {
    if spec.enables(SpecId::TANGERINE) {
        (gas - gas / 64) as u64
    } else {
        gas
    }
}

/// The gas given to a call: what was asked for, within what may be given away.
pub open spec fn call_gas_limit(spec: SpecId, gas_left: u64, gas_limit: u64) -> u64 {
    if spec.enables(SpecId::TANGERINE) && gas_for_callee(spec, gas_left) < gas_limit {
        gas_for_callee(spec, gas_left)
    } else {
        gas_limit
    }
}

/// How a call method runs the callee.
pub open spec fn call_scheme(method: EvmApiMethod) -> CallScheme {
    match method {
        EvmApiMethod::DelegateCall => CallScheme::DelegateCall,
        EvmApiMethod::StaticCall => CallScheme::StaticCall,
        _ => CallScheme::Call,
    }
}

/// The call that `data` encodes: address, value, gas left, gas limit, then the calldata.
pub open spec fn decoded_call(method: EvmApiMethod, data: Seq<u8>) -> CallRequest<Seq<u8>> {
    CallRequest {
        scheme: call_scheme(method),
        address: address_at(data, 0),
        value: word_at(data, 20),
        gas_left: u64_at(data, 52),
        gas_limit: u64_at(data, 60),
        calldata: data.skip(68),
    }
}

/// Where the init code starts in an encoded creation: after the gas, the value and the salt.
pub open spec fn init_code_offset(salted: bool) -> int {
    if salted { 72 } else { 40 }
}

/// The init code of an encoded creation.
pub open spec fn init_code(salted: bool, data: Seq<u8>) -> Seq<u8> {
    data.skip(init_code_offset(salted))
}

/// Whether init code of `len` bytes exceeds the limit on it.
pub open spec fn init_code_too_long(cfg: Cfg, len: int) -> bool {
    &&& cfg.spec.enables(SpecId::SHANGHAI)
    &&& len > 2 * cfg.max_code_size
}

/// The price of metering and of holding `len` bytes of init code.
pub open spec fn code_price(cfg: Cfg, len: usize) -> int {
    if len == 0 {
        0
    } else {
        let metering: int = if cfg.spec.enables(SpecId::SHANGHAI) {
            gas::initcode_price(len) as int
        } else {
            0
        };
        metering + gas::memory_price(gas::words(len))
    }
}

/// The price of a creation before its frame runs.
pub open spec fn create_price(cfg: Cfg, salted: bool, len: usize) -> int {
    code_price(cfg, len) + if salted { gas::create2_price(len) } else { gas::CREATE }
}

/// The log that `data` encodes for `address`: the number of topics, the topics, then the data.
pub open spec fn decoded_log(address: Address, data: Seq<u8>) -> Log<Seq<u8>, Seq<Word>> {
    Log {
        address,
        topics: Seq::new(topic_count(data), |i: int| word_at(data, 4 + 32 * i)),
        data: data.skip(4 + 32 * topic_count(data) as int),
    }
}

/// The gas that a frame used up.
pub open spec fn frame_gas_spent(gas: FrameGas) -> int {
    gas.limit - gas.remaining
}

/// What a frame of any kind returned.
pub open spec fn frame_outcome(frame: FrameResult<Seq<u8>>) -> InterpreterResult<Seq<u8>> {
    match frame {
        FrameResult::Call(outcome) => outcome,
        FrameResult::Create(outcome, _) => outcome,
        FrameResult::EofCreate(outcome, _) => outcome,
    }
}

/// The result of a creation that came to an address: a one, then the address, or zeros for `None`.
pub open spec fn address_result(address: Option<Address>) -> Seq<u8> {
    seq![1u8] + match address {
        Some(address) => address@,
        None => Seq::new(20, |i: int| 0u8),
    }
}

impl StylusHandler {
    /// The step that writes the first of the encoded slots, or that reports success where none is
    /// left.
    pub open spec fn slots_step(self, gas_left: u64, total_cost: u64, slots: Seq<u8>) -> StepView {
        if slots.len() == 0 {
            Step::Done(status_response(Status::Success, (gas_left - total_cost) as u64))
        } else {
            Step::Act(
                Action::Sstore {
                    address: self.address,
                    key: word_at(slots, 0),
                    value: word_at(slots, 32),
                },
                Pending::Sstore { gas_left, total_cost, rest: slots.skip(64) },
            )
        }
    }

    /// The first step of a call.
    pub open spec fn call_step(self, method: EvmApiMethod, data: Seq<u8>) -> StepView {
        let request = decoded_call(method, data);
        if self.is_static && !is_zero_word(request.value) {
            Step::Done(status_response(Status::WriteProtection, request.gas_left))
        } else {
            Step::Act(
                Action::LoadAccount { address: request.address },
                Pending::LoadAccount(request),
            )
        }
    }

    /// The frame of a call whose callee has been loaded. Delegated code sees the storage of the
    /// handler's own account, and a static call takes away the right to change state. The value is
    /// transferred, and the host puts no output into memory.
    pub open spec fn call_inputs(self, cfg: Cfg, request: CallRequest<Seq<u8>>) -> CallInputs<Seq<u8>> {
        CallInputs {
            input: request.calldata,
            return_memory_offset: Range { start: 0, end: 0 },
            gas_limit: call_gas_limit(cfg.spec, request.gas_left, request.gas_limit),
            bytecode_address: request.address,
            target_address: if request.scheme == CallScheme::DelegateCall {
                self.address
            } else {
                request.address
            },
            caller: self.address,
            value: CallValue::Transfer(request.value),
            scheme: request.scheme,
            is_static: self.is_static || request.scheme == CallScheme::StaticCall,
            is_eof: false,
        }
    }

    /// The first step of a creation.
    pub open spec fn create_step(self, cfg: Cfg, salted: bool, data: Seq<u8>) -> StepView {
        let gas_remaining = u64_at(data, 0);
        let code = init_code(salted, data);
        let cost = create_price(cfg, salted, code.len() as usize);
        if self.is_static {
            Step::Done(status_response(Status::WriteProtection, 0))
        } else if salted && !cfg.spec.enables(SpecId::PETERSBURG) {
            Step::Done(status_response(Status::Failure, gas_remaining))
        } else if init_code_too_long(cfg, code.len() as int) {
            Step::Done(status_response(Status::Failure, gas_remaining))
        } else if cost > u64::MAX {
            Step::Done(status_response(Status::Failure, gas_remaining))
        } else if gas_remaining < cost {
            Step::Done(status_response(Status::OutOfGas, gas_remaining))
        } else {
            Step::Act(
                Action::Create(
                    CreateInputs {
                        caller: self.address,
                        scheme: if salted {
                            CreateScheme::Create2 { salt: word_at(data, 40) }
                        } else {
                            CreateScheme::Create
                        },
                        value: word_at(data, 8),
                        init_code: code,
                        gas_limit: gas_for_callee(cfg.spec, (gas_remaining - cost) as u64),
                    },
                ),
                Pending::CreateFrame { gas_remaining, gas_cost: cost as u64 },
            )
        }
    }

    /// Whether every field that the handler reads of the request is there, and no sum that it
    /// forms before the host acts exceeds a `u64`.
    pub open spec fn admits(self, cfg: Cfg, method: EvmApiMethod, data: Seq<u8>) -> bool {
        match method {
            EvmApiMethod::GetBytes32 | EvmApiMethod::GetTransientBytes32 => data.len() >= 32,
            EvmApiMethod::SetTrieSlots => {
                &&& data.len() >= 8
                &&& self.is_static || data.len() == 8 || data.len() >= 72
            },
            EvmApiMethod::SetTransientBytes32 => self.is_static || data.len() >= 64,
            EvmApiMethod::ContractCall | EvmApiMethod::DelegateCall | EvmApiMethod::StaticCall => {
                data.len() >= 68
            },
            EvmApiMethod::Create1 | EvmApiMethod::Create2 => {
                let salted = method == EvmApiMethod::Create2;
                let len = init_code(salted, data).len();
                &&& data.len() >= init_code_offset(salted)
                &&& {
                    ||| self.is_static
                    ||| salted && !cfg.spec.enables(SpecId::PETERSBURG)
                    ||| init_code_too_long(cfg, len as int)
                    ||| salted && code_price(cfg, len as usize) <= u64::MAX
                    ||| create_price(cfg, salted, len as usize) <= u64::MAX
                }
            },
            EvmApiMethod::EmitLog => data.len() >= 4 && data.len() >= 4 + 32 * topic_count(data),
            EvmApiMethod::AccountBalance
            | EvmApiMethod::AccountCode
            | EvmApiMethod::AccountCodeHash => data.len() >= 20,
            EvmApiMethod::AddPages => data.len() >= 2,
            EvmApiMethod::CaptureHostIO => true,
        }
    }

    /// What the handler does first with a request.
    pub open spec fn first_step(self, cfg: Cfg, method: EvmApiMethod, data: Seq<u8>) -> StepView {
        match method {
            EvmApiMethod::GetBytes32 => Step::Act(
                Action::Sload { address: self.address, slot: word_at(data, 0) },
                Pending::Sload,
            ),
            EvmApiMethod::SetTrieSlots => if self.is_static {
                Step::Done(status_response(Status::WriteProtection, u64_at(data, 0)))
            } else {
                self.slots_step(u64_at(data, 0), 0, data.skip(8))
            },
            EvmApiMethod::GetTransientBytes32 => Step::Act(
                Action::Tload { address: self.address, slot: word_at(data, 0) },
                Pending::Tload,
            ),
            EvmApiMethod::SetTransientBytes32 => if self.is_static {
                Step::Done(status_response(Status::WriteProtection, 0))
            } else {
                Step::Act(
                    Action::Tstore {
                        address: self.address,
                        key: word_at(data, 0),
                        value: word_at(data, 32),
                    },
                    Pending::Tstore,
                )
            },
            EvmApiMethod::ContractCall | EvmApiMethod::DelegateCall | EvmApiMethod::StaticCall => {
                self.call_step(method, data)
            },
            EvmApiMethod::Create1 => self.create_step(cfg, false, data),
            EvmApiMethod::Create2 => self.create_step(cfg, true, data),
            EvmApiMethod::EmitLog => Step::Act(
                Action::EmitLog(decoded_log(self.address, data)),
                Pending::EmitLog,
            ),
            EvmApiMethod::AccountBalance => Step::Act(
                Action::Balance { address: address_at(data, 0) },
                Pending::Balance,
            ),
            EvmApiMethod::AccountCode => Step::Act(
                Action::Code { address: address_at(data, 0) },
                Pending::Code,
            ),
            EvmApiMethod::AccountCodeHash => Step::Act(
                Action::CodeHash { address: address_at(data, 0) },
                Pending::CodeHash,
            ),
            EvmApiMethod::AddPages | EvmApiMethod::CaptureHostIO => {
                Step::Done(status_response(Status::Success, 0))
            },
        }
    }

    /// Whether the reply is one to the action that is pending, and the handler can carry on: the
    /// sums that it forms fit in a `u64`, no frame gives back more gas than was charged for it,
    /// account queries succeeded, and the next slot to write is complete.
    pub open spec fn accepts(self, cfg: Cfg, pending: Pending<Seq<u8>>, reply: Reply<Seq<u8>>) -> bool {
        match (pending, reply) {
            (Pending::Sload, Reply::Sload(_)) => true,
            (Pending::Sstore { gas_left, total_cost, rest }, Reply::Sstore(stored)) => match stored {
                None => true,
                Some(stored) => {
                    let total = total_cost + gas::sstore_price(
                        cfg.spec.number(),
                        stored.data,
                        stored.is_cold,
                    );
                    &&& total <= u64::MAX
                    &&& gas_left < total || rest.len() == 0 || rest.len() >= 64
                },
            },
            (Pending::Tload, Reply::Tload(_)) => true,
            (Pending::Tstore, Reply::Tstore) => true,
            (Pending::LoadAccount(_), Reply::LoadAccount(_)) => true,
            (Pending::CallFrame { gas_limit, call_cost }, Reply::Frame(frame)) => {
                &&& gas_limit + call_cost <= u64::MAX
                &&& frame matches FrameResult::Call(outcome) ==> outcome.gas.remaining <= gas_limit
                    + call_cost
            },
            (Pending::CreateFrame { gas_remaining, gas_cost }, Reply::Frame(frame)) => {
                let gas = frame_outcome(frame).gas;
                &&& gas.remaining <= gas.limit
                &&& gas_cost + frame_gas_spent(gas) <= u64::MAX
            },
            (Pending::EmitLog, Reply::EmitLog) => true,
            (Pending::Balance, Reply::Balance(load)) => load is Some,
            (Pending::Code, Reply::Code(load)) => load is Some,
            (Pending::CodeHash, Reply::CodeHash(load)) => load is Some,
            _ => false,
        }
    }

    /// What the handler does when the slot that it had written has been stored.
    pub open spec fn stored_step(
        self,
        cfg: Cfg,
        gas_left: u64,
        total_cost: u64,
        rest: Seq<u8>,
        stored: Option<StateLoad<gas::SStoreResult>>,
    ) -> StepView {
        match stored {
            None => Step::Done(status_response(Status::Failure, gas_left)),
            Some(stored) => {
                let total = total_cost + gas::sstore_price(
                    cfg.spec.number(),
                    stored.data,
                    stored.is_cold,
                );
                if gas_left < total {
                    Step::Done(status_response(Status::OutOfGas, gas_left))
                } else {
                    self.slots_step(gas_left, total as u64, rest)
                }
            },
        }
    }

    /// What the handler does when the callee of a call has been loaded.
    pub open spec fn loaded_step(
        self,
        cfg: Cfg,
        request: CallRequest<Seq<u8>>,
        load: Option<StateLoad<gas::AccountLoad>>,
    ) -> StepView {
        match load {
            None => Step::Done(status_response(Status::Failure, request.gas_left)),
            Some(load) => {
                let inputs = self.call_inputs(cfg, request);
                Step::Act(
                    Action::Call(inputs),
                    Pending::CallFrame {
                        gas_limit: inputs.gas_limit,
                        call_cost: gas::call_price(
                            cfg.spec.number(),
                            !is_zero_word(request.value),
                            load.data,
                            load.is_cold,
                        ),
                    },
                )
            },
        }
    }

    /// What the handler answers when the frame of a call has finished.
    pub open spec fn called_response(
        gas_limit: u64,
        call_cost: u64,
        frame: FrameResult<Seq<u8>>,
    ) -> Response<Seq<u8>> {
        match frame {
            FrameResult::Call(outcome) => Response {
                result: seq![Status::Success.code()],
                data: outcome.output,
                gas: (gas_limit + call_cost - outcome.gas.remaining) as u64,
            },
            _ => empty_response((gas_limit + call_cost) as u64),
        }
    }

    /// What the handler answers when the frame of a creation has finished.
    pub open spec fn created_response(
        gas_remaining: u64,
        gas_cost: u64,
        frame: FrameResult<Seq<u8>>,
    ) -> Response<Seq<u8>> {
        let total = gas_cost + frame_gas_spent(frame_outcome(frame).gas);
        if gas_remaining < total {
            status_response(Status::OutOfGas, gas_remaining)
        } else {
            match frame {
                FrameResult::Create(outcome, address) => match outcome.result {
                    InstructionResult::Return => Response {
                        result: address_result(address),
                        data: outcome.output,
                        gas: total as u64,
                    },
                    InstructionResult::Revert => Response {
                        result: address_result(None),
                        data: outcome.output,
                        gas: total as u64,
                    },
                    InstructionResult::Other => status_response(Status::Failure, gas_remaining),
                },
                _ => status_response(Status::Failure, gas_remaining),
            }
        }
    }

    /// What the handler does with a reply of the host.
    pub open spec fn next_step(self, cfg: Cfg, pending: Pending<Seq<u8>>, reply: Reply<Seq<u8>>) -> StepView {
        match (pending, reply) {
            (Pending::Sload, Reply::Sload(load)) => Step::Done(
                match load {
                    Some(load) => word_response(
                        load.data,
                        gas::sload_price(cfg.spec.number(), load.is_cold),
                    ),
                    None => empty_response(0),
                },
            ),
            (Pending::Sstore { gas_left, total_cost, rest }, Reply::Sstore(stored)) => {
                self.stored_step(cfg, gas_left, total_cost, rest, stored)
            },
            (Pending::Tload, Reply::Tload(value)) => Step::Done(word_response(value, 0)),
            (Pending::Tstore, _) => Step::Done(status_response(Status::Success, 0)),
            (Pending::LoadAccount(request), Reply::LoadAccount(load)) => {
                self.loaded_step(cfg, request, load)
            },
            (Pending::CallFrame { gas_limit, call_cost }, Reply::Frame(frame)) => {
                Step::Done(Self::called_response(gas_limit, call_cost, frame))
            },
            (Pending::CreateFrame { gas_remaining, gas_cost }, Reply::Frame(frame)) => {
                Step::Done(Self::created_response(gas_remaining, gas_cost, frame))
            },
            (Pending::Balance, Reply::Balance(Some(load))) => Step::Done(
                word_response(load.data, account_touch_price(cfg, load.is_cold, false)),
            ),
            (Pending::Code, Reply::Code(Some(load))) => Step::Done(
                Response {
                    result: Seq::empty(),
                    data: load.data,
                    gas: account_touch_price(cfg, load.is_cold, true),
                },
            ),
            (Pending::CodeHash, Reply::CodeHash(Some(load))) => Step::Done(
                word_response(load.data, account_touch_price(cfg, load.is_cold, false)),
            ),
            _ => Step::Done(empty_response(0)),
        }
    }
}

} // verus!
