//! The request handler: turns the host requests of a running Stylus program into operations of the
//! EVM host, and the host's replies into answers.
//!
//! The handler performs nothing itself. [`StylusHandler::request`] starts a request and
//! [`StylusHandler::resume`] carries it on with the host's reply; each either names the next
//! [`Action`] or gives the answer.

use vstd::prelude::*;
use vstd::slice::{slice_subrange, slice_to_vec};

use crate::gas;
use crate::spec_id::SpecId;
use crate::stylus::message::{
    Action, CallInputs, CallRequest, CallScheme, CallValue, Cfg, CreateInputs, CreateScheme,
    EvmApiMethod, FrameResult, InstructionResult, Log, Pending, Reply, Response, StateLoad, Status,
    Step,
};
use crate::stylus::protocol::{
    account_touch_price, address_result, code_price, decoded_call, decoded_log, empty_response,
    frame_gas_spent, frame_outcome, init_code, init_code_too_long, status_response, topic_count,
    word_response,
};
use crate::wire;
use crate::wire::{word_at, Address, Word};

verus! {

/// Handles the requests of one running program.
#[derive(Clone, Copy, Debug, PartialEq, Eq)]
pub struct StylusHandler {
    /// The account on whose behalf the program runs.
    pub address: Address,
    /// Whether the program must not change state.
    pub is_static: bool,
}

/// A step in running code.
pub type HostStep = Step<Vec<u8>, Vec<Word>>;

/// Builds the answer that consists of a status and an amount of gas.
fn status_answer(status: Status, gas: u64) -> (response: Response<Vec<u8>>)
    ensures
        response@ == status_response(status, gas),
{
    let response = Response { result: status.to_bytes(), data: Vec::new(), gas };
    assert(response.data@ =~= Seq::<u8>::empty());
    response
}

/// Builds the answer that consists of 32 bytes and an amount of gas.
fn word_answer(word: &Word, gas: u64) -> (response: Response<Vec<u8>>)
    ensures
        response@ == word_response(*word, gas),
{
    let response = Response { result: slice_to_vec(word.as_slice()), data: Vec::new(), gas };
    assert(response.data@ =~= Seq::<u8>::empty());
    response
}

/// Builds the answer without result and data.
fn empty_answer(gas: u64) -> (response: Response<Vec<u8>>)
    ensures
        response@ == empty_response(gas),
{
    Response { result: Vec::new(), data: Vec::new(), gas }
}

/// Builds the result of a creation that came to an address.
fn address_bytes(address: &Option<Address>) -> (result: Vec<u8>)
    ensures
        result@ == address_result(*address),
{
    let mut result: Vec<u8> = vec![1];
    let bytes: Address = match address {
        Some(address) => *address,
        None => [0; 20],
    };
    result.extend_from_slice(bytes.as_slice());
    assert(result@ =~= address_result(*address));
    result
}

/// Reads an encoded call.
fn read_call(method: EvmApiMethod, data: &mut Vec<u8>) -> (request: CallRequest<Vec<u8>>)
    requires
        old(data)@.len() >= 68,
    ensures
        request@ == decoded_call(method, old(data)@),
{
    let address = wire::take_address(data);
    let value = wire::take_u256(data);
    let gas_left = wire::take_u64(data);
    let gas_limit = wire::take_u64(data);
    let calldata = wire::take_rest(data);
    let scheme = match method {
        EvmApiMethod::DelegateCall => CallScheme::DelegateCall,
        EvmApiMethod::StaticCall => CallScheme::StaticCall,
        _ => CallScheme::Call,
    };
    proof {
        let whole = old(data)@;
        assert(value =~= word_at(whole, 20));
        assert(whole.skip(20).skip(32).take(8) =~= whole.subrange(52, 60));
        assert(whole.skip(20).skip(32).skip(8).take(8) =~= whole.subrange(60, 68));
        assert(calldata@ =~= whole.skip(68));
    }
    CallRequest { scheme, address, value, gas_left, gas_limit, calldata }
}

/// Reads an encoded log for `address`.
fn read_log(address: Address, data: &mut Vec<u8>) -> (log: Log<Vec<u8>, Vec<Word>>)
    requires
        old(data)@.len() >= 4,
        old(data)@.len() >= 4 + 32 * topic_count(old(data)@),
    ensures
        log@ == decoded_log(address, old(data)@),
{
    let ghost whole = data@;
    let count = wire::take_u32(data);
    let mut topics: Vec<Word> = Vec::with_capacity(count as usize);
    let mut i: u32 = 0;
    while i < count
        invariant
            i <= count,
            count == topic_count(whole),
            whole.len() >= 4 + 32 * topic_count(whole),
            data@ == whole.skip(4 + 32 * i as int),
            topics@ == Seq::new(i as nat, |j: int| word_at(whole, 4 + 32 * j)),
        decreases count - i,
    {
        let topic = wire::take_bytes32(data);
        assert(topic =~= word_at(whole, 4 + 32 * i as int));
        topics.push(topic);
        i = i + 1;
        assert(data@ =~= whole.skip(4 + 32 * i as int));
        assert(topics@ =~= Seq::new(i as nat, |j: int| word_at(whole, 4 + 32 * j)));
    }
    let rest = wire::take_rest(data);
    let log = Log { address, topics, data: rest };
    assert(log.topics@ =~= decoded_log(address, whole).topics);
    log
}

impl StylusHandler {
    /// Makes a handler for a program that runs on behalf of `address`.
    pub fn new(address: Address, is_static: bool) -> (handler: StylusHandler)
        ensures
            handler.address == address,
            handler.is_static == is_static,
    {
        StylusHandler { address, is_static }
    }

    /// Prices the touch of an account, and of its code if `with_code`.
    pub fn wasm_account_touch(&self, cfg: &Cfg, is_cold: bool, with_code: bool) -> (cost: u64)
        ensures
            cost == account_touch_price(*cfg, is_cold, with_code),
    {
        let code_cost: u64 = if with_code {
            cfg.max_code_size as u64 / gas::CODE_SIZE_UNIT * gas::CODE_TOUCH
        } else {
            0
        };
        code_cost + gas::warm_cold_cost(is_cold)
    }

    /// Writes the first of the encoded slots, or reports success where none is left.
    fn write_slots(&self, gas_left: u64, total_cost: u64, slots: Vec<u8>) -> (step: HostStep)
        requires
            total_cost <= gas_left,
            slots@.len() == 0 || slots@.len() >= 64,
        ensures
            step@ == self.slots_step(gas_left, total_cost, slots@),
    {
        if slots.len() == 0 {
            return Step::Done(status_answer(Status::Success, gas_left - total_cost));
        }
        let ghost whole = slots@;
        let mut slots = slots;
        let key = wire::take_u256(&mut slots);
        let value = wire::take_u256(&mut slots);
        assert(value =~= word_at(whole, 32));
        assert(slots@ =~= whole.skip(64));
        Step::Act(
            Action::Sstore { address: self.address, key, value },
            Pending::Sstore { gas_left, total_cost, rest: slots },
        )
    }

    /// Starts a call.
    fn begin_call(&self, method: EvmApiMethod, data: Vec<u8>) -> (step: HostStep)
        requires
            data@.len() >= 68,
        ensures
            step@ == self.call_step(method, data@),
    {
        let mut data = data;
        let request = read_call(method, &mut data);
        if self.is_static && !wire::word_is_zero(&request.value) {
            return Step::Done(status_answer(Status::WriteProtection, request.gas_left));
        }
        Step::Act(Action::LoadAccount { address: request.address }, Pending::LoadAccount(request))
    }

    /// Tells whether init code of `len` bytes exceeds the limit on it.
    fn is_init_code_too_long(cfg: &Cfg, len: usize) -> (too_long: bool)
        ensures
            too_long == init_code_too_long(*cfg, len as int),
    {
        cfg.spec.is_enabled_in(SpecId::SHANGHAI) && match cfg.max_code_size.checked_mul(2) {
            Some(limit) => len > limit,
            None => false,
        }
    }

    /// Prices the init code of a creation; `None` where it is too long or the price exceeds a
    /// `u64`.
    fn init_code_cost(cfg: &Cfg, len: usize) -> (cost: Option<u64>)
        ensures
            cost is Some <==> !init_code_too_long(*cfg, len as int) && code_price(*cfg, len)
                <= u64::MAX,
            cost matches Some(cost) ==> cost == code_price(*cfg, len),
    {
        if len == 0 {
            return Some(0);
        }
        if Self::is_init_code_too_long(cfg, len) {
            return None;
        }
        let mut cost: u64 = 0;
        if cfg.spec.is_enabled_in(SpecId::SHANGHAI) {
            cost = gas::initcode_cost(len);
        }
        cost.checked_add(gas::memory_gas(gas::num_words(len)))
    }

    /// Starts a creation.
    fn begin_create(&self, cfg: &Cfg, salted: bool, data: Vec<u8>) -> (step: HostStep)
        requires
            self.admits(
                *cfg,
                if salted { EvmApiMethod::Create2 } else { EvmApiMethod::Create1 },
                data@,
            ),
        ensures
            step@ == self.create_step(*cfg, salted, data@),
    {
        let ghost whole = data@;
        let mut data = data;
        let gas_remaining = wire::take_u64(&mut data);
        let value = wire::take_u256(&mut data);
        let scheme = if salted {
            CreateScheme::Create2 { salt: wire::take_u256(&mut data) }
        } else {
            CreateScheme::Create
        };
        let code = wire::take_rest(&mut data);
        proof {
            assert(whole.take(8) =~= whole.subrange(0, 8));
            assert(value =~= word_at(whole, 8));
            if salted {
                assert(scheme->salt =~= word_at(whole, 40));
            }
            assert(code@ =~= init_code(salted, whole));
        }

        if self.is_static {
            return Step::Done(status_answer(Status::WriteProtection, 0));
        }
        if salted && !cfg.spec.is_enabled_in(SpecId::PETERSBURG) {
            return Step::Done(status_answer(Status::Failure, gas_remaining));
        }
        let len = code.len();
        let code_cost: u64 = match Self::init_code_cost(cfg, len) {
            Some(cost) => cost,
            None => {
                return Step::Done(status_answer(Status::Failure, gas_remaining));
            },
        };
        let gas_cost: u64 = if salted {
            let total = match gas::create2_cost(len) {
                Some(cost) => code_cost.checked_add(cost),
                None => None,
            };
            match total {
                Some(total) => total,
                None => {
                    return Step::Done(status_answer(Status::Failure, gas_remaining));
                },
            }
        } else {
            code_cost + gas::CREATE
        };
        if gas_remaining < gas_cost {
            return Step::Done(status_answer(Status::OutOfGas, gas_remaining));
        }
        let mut gas_limit: u64 = gas_remaining - gas_cost;
        if cfg.spec.is_enabled_in(SpecId::TANGERINE) {
            gas_limit = gas_limit - gas_limit / 64;
        }
        Step::Act(
            Action::Create(
                CreateInputs { caller: self.address, scheme, value, init_code: code, gas_limit },
            ),
            Pending::CreateFrame { gas_remaining, gas_cost },
        )
    }

    /// Starts a request: names the host's first action, or gives the answer where none is needed.
    pub fn request(&self, cfg: &Cfg, req_type: EvmApiMethod, req_data: &[u8]) -> (step: HostStep)
        requires
            self.admits(*cfg, req_type, req_data@),
        ensures
            step@ == self.first_step(*cfg, req_type, req_data@),
    {
        let mut data = slice_to_vec(req_data);
        let ghost whole = data@;
        match req_type {
            EvmApiMethod::GetBytes32 => {
                let slot = wire::take_u256(&mut data);
                Step::Act(Action::Sload { address: self.address, slot }, Pending::Sload)
            },
            EvmApiMethod::SetTrieSlots => {
                let gas_left = wire::take_u64(&mut data);
                assert(whole.take(8) =~= whole.subrange(0, 8));
                if self.is_static {
                    return Step::Done(status_answer(Status::WriteProtection, gas_left));
                }
                self.write_slots(gas_left, 0, data)
            },
            EvmApiMethod::GetTransientBytes32 => {
                let slot = wire::take_u256(&mut data);
                Step::Act(Action::Tload { address: self.address, slot }, Pending::Tload)
            },
            EvmApiMethod::SetTransientBytes32 => {
                if self.is_static {
                    return Step::Done(status_answer(Status::WriteProtection, 0));
                }
                let key = wire::take_u256(&mut data);
                let value = wire::take_u256(&mut data);
                assert(value =~= word_at(whole, 32));
                Step::Act(Action::Tstore { address: self.address, key, value }, Pending::Tstore)
            },
            EvmApiMethod::ContractCall | EvmApiMethod::DelegateCall | EvmApiMethod::StaticCall => {
                self.begin_call(req_type, data)
            },
            EvmApiMethod::Create1 => self.begin_create(cfg, false, data),
            EvmApiMethod::Create2 => self.begin_create(cfg, true, data),
            EvmApiMethod::EmitLog => {
                let log = read_log(self.address, &mut data);
                Step::Act(Action::EmitLog(log), Pending::EmitLog)
            },
            EvmApiMethod::AccountBalance => {
                let address = wire::take_address(&mut data);
                Step::Act(Action::Balance { address }, Pending::Balance)
            },
            EvmApiMethod::AccountCode => {
                let address = wire::take_address(&mut data);
                Step::Act(Action::Code { address }, Pending::Code)
            },
            EvmApiMethod::AccountCodeHash => {
                let address = wire::take_address(&mut data);
                Step::Act(Action::CodeHash { address }, Pending::CodeHash)
            },
            EvmApiMethod::AddPages => {
                let _count = wire::take_u16(&mut data);
                Step::Done(status_answer(Status::Success, 0))
            },
            EvmApiMethod::CaptureHostIO => Step::Done(status_answer(Status::Success, 0)),
        }
    }

    /// Charges a stored slot and goes on to the next.
    fn after_store(
        &self,
        cfg: &Cfg,
        gas_left: u64,
        total_cost: u64,
        rest: Vec<u8>,
        stored: Option<StateLoad<gas::SStoreResult>>,
    ) -> (step: HostStep)
        requires
            self.accepts(
                *cfg,
                Pending::Sstore { gas_left, total_cost, rest: rest@ },
                Reply::Sstore(stored),
            ),
        ensures
            step@ == self.stored_step(*cfg, gas_left, total_cost, rest@, stored),
    {
        match stored {
            None => Step::Done(status_answer(Status::Failure, gas_left)),
            Some(stored) => {
                let total_cost = total_cost + gas::sstore_cost(
                    cfg.spec.to_u8(),
                    &stored.data,
                    stored.is_cold,
                );
                if gas_left < total_cost {
                    return Step::Done(status_answer(Status::OutOfGas, gas_left));
                }
                self.write_slots(gas_left, total_cost, rest)
            },
        }
    }

    /// Runs the frame of a call once its callee has been loaded.
    fn after_load(
        &self,
        cfg: &Cfg,
        request: CallRequest<Vec<u8>>,
        load: Option<StateLoad<gas::AccountLoad>>,
    ) -> (step: HostStep)
        ensures
            step@ == self.loaded_step(*cfg, request@, load),
    {
        let load = match load {
            Some(load) => load,
            None => {
                return Step::Done(status_answer(Status::Failure, request.gas_left));
            },
        };
        let call_cost = gas::call_cost(
            cfg.spec.to_u8(),
            !wire::word_is_zero(&request.value),
            &load.data,
            load.is_cold,
        );
        let mut gas_limit = request.gas_limit;
        if cfg.spec.is_enabled_in(SpecId::TANGERINE) {
            let available = request.gas_left - request.gas_left / 64;
            if available < gas_limit {
                gas_limit = available;
            }
        }
        let is_delegate = match request.scheme {
            CallScheme::DelegateCall => true,
            _ => false,
        };
        let is_static = match request.scheme {
            CallScheme::StaticCall => true,
            _ => self.is_static,
        };
        let inputs = CallInputs {
            input: request.calldata,
            return_memory_offset: 0..0,
            gas_limit,
            bytecode_address: request.address,
            target_address: if is_delegate { self.address } else { request.address },
            caller: self.address,
            value: CallValue::Transfer(request.value),
            scheme: request.scheme,
            is_static,
            is_eof: false,
        };
        Step::Act(Action::Call(inputs), Pending::CallFrame { gas_limit, call_cost })
    }

    /// Answers a call whose frame has finished.
    fn after_call(gas_limit: u64, call_cost: u64, frame: FrameResult<Vec<u8>>) -> (response: Response<Vec<u8>>)
        requires
            gas_limit + call_cost <= u64::MAX,
            frame matches FrameResult::Call(outcome) ==> outcome.gas.remaining <= gas_limit + call_cost,
        ensures
            response@ == Self::called_response(gas_limit, call_cost, frame@),
    {
        match frame {
            FrameResult::Call(outcome) => Response {
                result: Status::Success.to_bytes(),
                data: outcome.output,
                gas: gas_limit + call_cost - outcome.gas.remaining,
            },
            _ => empty_answer(gas_limit + call_cost),
        }
    }

    /// Answers a creation whose frame has finished.
    fn after_create(gas_remaining: u64, gas_cost: u64, frame: FrameResult<Vec<u8>>) -> (response: Response<Vec<u8>>)
        requires
            ({
                let gas = frame_outcome(frame@).gas;
                gas.remaining <= gas.limit && gas_cost + frame_gas_spent(gas) <= u64::MAX
            }),
        ensures
            response@ == Self::created_response(gas_remaining, gas_cost, frame@),
    {
        let gas = match &frame {
            FrameResult::Call(outcome) => outcome.gas,
            FrameResult::Create(outcome, _) => outcome.gas,
            FrameResult::EofCreate(outcome, _) => outcome.gas,
        };
        let total: u64 = gas_cost + (gas.limit - gas.remaining);
        if gas_remaining < total {
            return status_answer(Status::OutOfGas, gas_remaining);
        }
        match frame {
            FrameResult::Create(outcome, address) => {
                let result = match outcome.result {
                    InstructionResult::Return => address_bytes(&address),
                    InstructionResult::Revert => address_bytes(&None),
                    InstructionResult::Other => {
                        return status_answer(Status::Failure, gas_remaining);
                    },
                };
                Response { result, data: outcome.output, gas: total }
            },
            _ => status_answer(Status::Failure, gas_remaining),
        }
    }

    /// Carries a request on with the host's reply to the pending action.
    pub fn resume(&self, cfg: &Cfg, pending: Pending<Vec<u8>>, reply: Reply<Vec<u8>>) -> (step: HostStep)
        requires
            self.accepts(*cfg, pending@, reply@),
        ensures
            step@ == self.next_step(*cfg, pending@, reply@),
    {
        match (pending, reply) {
            (Pending::Sload, Reply::Sload(load)) => match load {
                Some(load) => {
                    let gas = gas::sload_cost(cfg.spec.to_u8(), load.is_cold);
                    Step::Done(word_answer(&load.data, gas))
                },
                None => Step::Done(empty_answer(0)),
            },
            (Pending::Sstore { gas_left, total_cost, rest }, Reply::Sstore(stored)) => {
                self.after_store(cfg, gas_left, total_cost, rest, stored)
            },
            (Pending::Tload, Reply::Tload(value)) => Step::Done(word_answer(&value, 0)),
            (Pending::Tstore, _) => Step::Done(status_answer(Status::Success, 0)),
            (Pending::LoadAccount(request), Reply::LoadAccount(load)) => {
                self.after_load(cfg, request, load)
            },
            (Pending::CallFrame { gas_limit, call_cost }, Reply::Frame(frame)) => {
                Step::Done(Self::after_call(gas_limit, call_cost, frame))
            },
            (Pending::CreateFrame { gas_remaining, gas_cost }, Reply::Frame(frame)) => {
                Step::Done(Self::after_create(gas_remaining, gas_cost, frame))
            },
            (Pending::Balance, Reply::Balance(Some(load))) => {
                let gas = self.wasm_account_touch(cfg, load.is_cold, false);
                Step::Done(word_answer(&load.data, gas))
            },
            (Pending::Code, Reply::Code(Some(load))) => {
                let gas = self.wasm_account_touch(cfg, load.is_cold, true);
                Step::Done(Response { result: Vec::new(), data: load.data, gas })
            },
            (Pending::CodeHash, Reply::CodeHash(Some(load))) => {
                let gas = self.wasm_account_touch(cfg, load.is_cold, false);
                Step::Done(word_answer(&load.data, gas))
            },
            _ => Step::Done(empty_answer(0)),
        }
    }

    /// Tells whether [`StylusHandler::request`] takes the request.
    pub fn is_admissible(&self, cfg: &Cfg, req_type: EvmApiMethod, req_data: &[u8]) -> (admissible: bool)
        ensures
            admissible == self.admits(*cfg, req_type, req_data@),
    {
        let len = req_data.len();
        match req_type {
            EvmApiMethod::GetBytes32 | EvmApiMethod::GetTransientBytes32 => len >= 32,
            EvmApiMethod::SetTrieSlots => len >= 8 && (self.is_static || len == 8 || len >= 72),
            EvmApiMethod::SetTransientBytes32 => self.is_static || len >= 64,
            EvmApiMethod::ContractCall | EvmApiMethod::DelegateCall | EvmApiMethod::StaticCall => {
                len >= 68
            },
            EvmApiMethod::Create1 => {
                if len < 40 {
                    return false;
                }
                assert(init_code(false, req_data@).len() == len - 40);
                if self.is_static || Self::is_init_code_too_long(cfg, len - 40) {
                    return true;
                }
                match Self::init_code_cost(cfg, len - 40) {
                    Some(cost) => cost <= u64::MAX - gas::CREATE,
                    None => false,
                }
            },
            EvmApiMethod::Create2 => {
                if len < 72 {
                    return false;
                }
                assert(init_code(true, req_data@).len() == len - 72);
                if self.is_static || !cfg.spec.is_enabled_in(SpecId::PETERSBURG)
                    || Self::is_init_code_too_long(cfg, len - 72) {
                    return true;
                }
                match Self::init_code_cost(cfg, len - 72) {
                    Some(_) => true,
                    None => false,
                }
            },
            EvmApiMethod::EmitLog => {
                if len < 4 {
                    return false;
                }
                let count = wire::be_to_u128(slice_subrange(req_data, 0, 4));
                assert(req_data@.subrange(0, 4) =~= req_data@.take(4));
                proof {
                    wire::lemma_be_range_machine();
                    wire::lemma_be_value_bound(req_data@.take(4));
                }
                len as u128 >= 4 + 32 * count
            },
            EvmApiMethod::AccountBalance
            | EvmApiMethod::AccountCode
            | EvmApiMethod::AccountCodeHash => len >= 20,
            EvmApiMethod::AddPages => len >= 2,
            EvmApiMethod::CaptureHostIO => true,
        }
    }

    /// Tells whether [`StylusHandler::resume`] takes the reply to the pending action.
    pub fn is_acceptable(&self, cfg: &Cfg, pending: &Pending<Vec<u8>>, reply: &Reply<Vec<u8>>) -> (acceptable: bool)
        ensures
            acceptable == self.accepts(*cfg, pending@, reply@),
    {
        match (pending, reply) {
            (Pending::Sload, Reply::Sload(_)) => true,
            (Pending::Sstore { gas_left, total_cost, rest }, Reply::Sstore(stored)) => match stored {
                None => true,
                Some(stored) => {
                    let cost = gas::sstore_cost(cfg.spec.to_u8(), &stored.data, stored.is_cold);
                    match total_cost.checked_add(cost) {
                        Some(total) => *gas_left < total || rest.len() == 0 || rest.len() >= 64,
                        None => false,
                    }
                },
            },
            (Pending::Tload, Reply::Tload(_)) => true,
            (Pending::Tstore, Reply::Tstore) => true,
            (Pending::LoadAccount(_), Reply::LoadAccount(_)) => true,
            (Pending::CallFrame { gas_limit, call_cost }, Reply::Frame(frame)) => {
                match gas_limit.checked_add(*call_cost) {
                    Some(limit) => match frame {
                        FrameResult::Call(outcome) => outcome.gas.remaining <= limit,
                        _ => true,
                    },
                    None => false,
                }
            },
            (Pending::CreateFrame { gas_remaining: _, gas_cost }, Reply::Frame(frame)) => {
                let gas = match frame {
                    FrameResult::Call(outcome) => outcome.gas,
                    FrameResult::Create(outcome, _) => outcome.gas,
                    FrameResult::EofCreate(outcome, _) => outcome.gas,
                };
                gas.remaining <= gas.limit && gas.limit - gas.remaining <= u64::MAX - *gas_cost
            },
            (Pending::EmitLog, Reply::EmitLog) => true,
            (Pending::Balance, Reply::Balance(load)) => load.is_some(),
            (Pending::Code, Reply::Code(load)) => load.is_some(),
            (Pending::CodeHash, Reply::CodeHash(load)) => load.is_some(),
            _ => false,
        }
    }
}

} // verus!
