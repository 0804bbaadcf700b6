//! What each request comes to, from the fields that it encodes to the answer.

use vstd::prelude::*;

use crate::gas;
use crate::gas::{law_memory_price, law_words_hold_bytes};
use crate::spec_id::SpecId;
use crate::stylus::handler::StylusHandler;
use crate::stylus::laws::{
    encoded_call, encoded_create, encoded_log, joined_words, law_call_read_back, law_create_read_back,
    law_log_read_back, lemma_replies, run, run_request,
};
use crate::stylus::message::{
    Action, CallScheme, CallValue, Cfg, CreateScheme, EvmApiMethod, FrameResult, InstructionResult,
    InterpreterResult, Log, Pending, Reply, Response, StateLoad, Status, Step,
};
use crate::stylus::protocol::{
    account_touch_price, create_price, empty_response, frame_gas_spent, frame_outcome, gas_for_callee,
    init_code, init_code_too_long, status_response, topic_count, u64_at, word_response, StepView,
};
use crate::wire::{
    be_bytes, be_value, law_be_bytes_read_back, law_word_read_back, law_zero_word_spells_zero,
    lemma_address_at_front, lemma_be_range_machine, lemma_word_at_front, Address, Word,
};

verus! {

/// A number is read as it was written, wherever its bytes stand: eight for a `u64`, four for the
/// number of topics at the front of a log.
pub proof fn law_numbers_read_back(before: Seq<u8>, number: u64, count: u32, after: Seq<u8>)
    ensures
        u64_at(before + be_bytes(number as nat, 8) + after, before.len() as int) == number,
        topic_count(be_bytes(count as nat, 4) + after) == count,
{
    lemma_be_range_machine();
    law_be_bytes_read_back(number as nat, 8);
    law_be_bytes_read_back(count as nat, 4);
    let at = before.len() as int;
    assert((before + be_bytes(number as nat, 8) + after).subrange(at, at + 8) =~= be_bytes(
        number as nat,
        8,
    ));
    assert((be_bytes(count as nat, 4) + after).take(4) =~= be_bytes(count as nat, 4));
}

/// What the answers consist of: a status answer of the byte of the status, a word answer of the bytes
/// of the word, an empty answer of nothing; none returns data, and each reports the gas given.
pub proof fn law_answers_hold(status: Status, word: Word, gas: u64)
    ensures
        status_response(status, gas).result.len() == 1,
        status_response(status, gas).result[0] == status.code(),
        status_response(status, gas).data.len() == 0,
        status_response(status, gas).gas == gas,
        word_response(word, gas).result.len() == 32,
        forall|i: int| 0 <= i < 32 ==> word_response(word, gas).result[i] == word[i],
        word_response(word, gas).data.len() == 0,
        word_response(word, gas).gas == gas,
        empty_response(gas).result.len() == 0,
        empty_response(gas).data.len() == 0,
        empty_response(gas).gas == gas,
{
}

/// From the fork on that holds gas back from callees, the part held back is a 64th, rounded down;
/// before, none is.
pub proof fn law_gas_is_held_back(fork: SpecId, gas: u64)
    ensures
        ({
            let held = gas - gas_for_callee(fork, gas);
            &&& fork.enables(SpecId::TANGERINE) ==> 64 * held <= gas < 64 * held + 64
            &&& !fork.enables(SpecId::TANGERINE) ==> held == 0
        }),
{
}

/// A finished frame of any kind says how it ended, and what it used up and what it left make up what
/// it was given.
pub proof fn law_frame_outcome(outcome: InterpreterResult<Seq<u8>>, address: Option<Address>)
    ensures
        frame_outcome(FrameResult::Call(outcome)) == outcome,
        frame_outcome(FrameResult::Create(outcome, address)) == outcome,
        frame_outcome(FrameResult::EofCreate(outcome, address)) == outcome,
        frame_gas_spent(outcome.gas) + outcome.gas.remaining == outcome.gas.limit,
{
}

/// Touching an account costs 2600 the first time and 100 after that; touching its code costs 700 more
/// for each time that 24576 bytes go into the code size limit.
pub proof fn law_account_touch_price(cfg: Cfg, is_cold: bool, units: int)
    requires
        24576 * units <= cfg.max_code_size < 24576 * (units + 1),
    ensures
        account_touch_price(cfg, is_cold, false) == if is_cold { 2600int } else { 100 },
        account_touch_price(cfg, is_cold, true) == account_touch_price(cfg, is_cold, false) + 700 * units,
{
    assert(cfg.max_code_size as int / 24576 == units);
}

/// The price of a creation before its frame runs, with `words` words of init code: 32000, 3 for each
/// word and one part in 512 of their number squared, as far as a `u64` can hold the square. From the
/// fork on that meters init code each word costs 2 more, and with a salt 6 more.
pub proof fn law_create_price(cfg: Cfg, salted: bool, len: usize, words: int)
    requires
        len + 31 <= usize::MAX,
        32 * (words - 1) < len <= 32 * words,
    ensures
        create_price(cfg, salted, len) == 32000 + 3 * words + (if words * words > u64::MAX {
            u64::MAX as int
        } else {
            words * words
        }) / 512 + (if cfg.spec.enables(SpecId::SHANGHAI) { 2 * words } else { 0 }) + (if salted {
            6 * words
        } else {
            0
        }),
        create_price(cfg, salted, len) <= u64::MAX,
{
    law_words_hold_bytes(len);
    assert(gas::words(len) == words);
    law_memory_price(gas::words(len));
    if len == 0 {
        assert(words * words == 0) by (nonlinear_arith)
            requires
                words == 0,
        ;
    }
    let square: int = words * words;
    assert(square >= 0) by (nonlinear_arith)
        requires
            square == words * words,
    ;
}

/// Init code is too long from the fork on that limits it, if it is longer than two contracts may be.
pub proof fn law_init_code_limit(cfg: Cfg, len: int)
    ensures
        init_code_too_long(cfg, len) <==> cfg.spec.enables(SpecId::SHANGHAI) && len > cfg.max_code_size
            + cfg.max_code_size,
{
}

/// A request is admitted exactly if every field that the handler reads of it is there: a slot, two of
/// them for each write, the gas before slots, the head of a call or a creation, the topics that a log
/// announces, an address, a number of pages. A static handler reads no slot to write.
pub proof fn law_complete_requests_are_admitted(
    handler: StylusHandler,
    cfg: Cfg,
    method: EvmApiMethod,
    data: Seq<u8>,
)
    requires
        data.len() <= usize::MAX,
    ensures
        handler.admits(cfg, method, data) <==> match method {
            EvmApiMethod::GetBytes32 | EvmApiMethod::GetTransientBytes32 => data.len() >= 32,
            EvmApiMethod::SetTrieSlots => data.len() == 8 || data.len() >= 8 + 64 || (handler.is_static
                && data.len() > 8),
            EvmApiMethod::SetTransientBytes32 => data.len() >= 64 || handler.is_static,
            EvmApiMethod::ContractCall | EvmApiMethod::DelegateCall | EvmApiMethod::StaticCall => {
                data.len() >= 20 + 32 + 8 + 8
            },
            EvmApiMethod::Create1 => data.len() >= 8 + 32,
            EvmApiMethod::Create2 => data.len() >= 8 + 32 + 32,
            EvmApiMethod::EmitLog => data.len() >= 4 && data.len() - 4 >= 32 * be_value(data.take(4)),
            EvmApiMethod::AccountBalance
            | EvmApiMethod::AccountCode
            | EvmApiMethod::AccountCodeHash => data.len() >= 20,
            EvmApiMethod::AddPages => data.len() >= 2,
            EvmApiMethod::CaptureHostIO => true,
        },
{
    let salted = method == EvmApiMethod::Create2;
    let offset: int = if salted { 72 } else { 40 };
    if (method == EvmApiMethod::Create1 || method == EvmApiMethod::Create2) && data.len() >= offset {
        let len = (data.len() - offset) as usize;
        assert(init_code(salted, data).len() == len);
        law_create_price(cfg, salted, len, (len + 31) as int / 32);
    }
}

/// The handler takes every reply to a load, to a transient write and to a log; a reply to an account
/// query it takes exactly if the host found the account.
pub proof fn law_plain_replies_are_taken(
    handler: StylusHandler,
    cfg: Cfg,
    pending: Pending<Seq<u8>>,
    word: Word,
    slot: Option<StateLoad<Word>>,
    account: Option<StateLoad<gas::AccountLoad>>,
    code: Option<StateLoad<Seq<u8>>>,
)
    ensures
        handler.accepts(cfg, Pending::Sload, Reply::Sload(slot)),
        handler.accepts(cfg, Pending::Tload, Reply::Tload(word)),
        handler.accepts(cfg, Pending::Tstore, Reply::Tstore),
        handler.accepts(cfg, Pending::EmitLog, Reply::EmitLog),
        pending is LoadAccount ==> handler.accepts(cfg, pending, Reply::LoadAccount(account)),
        handler.accepts(cfg, Pending::Balance, Reply::Balance(slot)) <==> slot is Some,
        handler.accepts(cfg, Pending::CodeHash, Reply::CodeHash(slot)) <==> slot is Some,
        handler.accepts(cfg, Pending::Code, Reply::Code(code)) <==> code is Some,
{
}

/// A storage read has the host load the slot asked for, for the handler's own account, and is answered
/// with the bytes of the word loaded, at the price of the read; or with nothing, free of charge, where
/// the host could not load it. Bytes after the slot do not matter.
pub proof fn law_storage_read(
    handler: StylusHandler,
    cfg: Cfg,
    slot: Word,
    rest: Seq<u8>,
    load: Option<StateLoad<Word>>,
)
    ensures
        run_request(handler, cfg, EvmApiMethod::GetBytes32, slot@ + rest, seq![]) == StepView::Act(
            Action::Sload { address: handler.address, slot },
            Pending::Sload,
        ),
        run_request(handler, cfg, EvmApiMethod::GetBytes32, slot@ + rest, seq![Reply::Sload(load)])
            == StepView::Done(
            match load {
                Some(load) => Response {
                    result: load.data@,
                    data: seq![],
                    gas: gas::sload_price(cfg.spec.number(), load.is_cold),
                },
                None => Response { result: seq![], data: seq![], gas: 0 },
            },
        ),
{
    lemma_word_at_front(slot, rest);
    let first = handler.first_step(cfg, EvmApiMethod::GetBytes32, slot@ + rest);
    lemma_replies(handler, cfg, first, Reply::Sload(load), Reply::Tstore);
}

/// A transient read has the host load the slot asked for, for the handler's own account, and is
/// answered with the bytes of the word loaded; a transient write of one that may change state has the
/// host store the value at the key, and succeeds. Both are free, and bytes after the fields do not
/// matter.
#[verifier::spinoff_prover]
pub proof fn law_transient_storage(
    handler: StylusHandler,
    cfg: Cfg,
    key: Word,
    value: Word,
    rest: Seq<u8>,
    loaded: Word,
)
    ensures
        ({
            let data = key@ + rest;
            &&& run_request(handler, cfg, EvmApiMethod::GetTransientBytes32, data, seq![]) == StepView::Act(
                Action::Tload { address: handler.address, slot: key },
                Pending::Tload,
            )
            &&& run_request(
                handler,
                cfg,
                EvmApiMethod::GetTransientBytes32,
                data,
                seq![Reply::Tload(loaded)],
            ) == StepView::Done(Response { result: loaded@, data: seq![], gas: 0 })
        }),
        !handler.is_static ==> ({
            let data = key@ + value@ + rest;
            &&& run_request(handler, cfg, EvmApiMethod::SetTransientBytes32, data, seq![]) == StepView::Act(
                Action::Tstore { address: handler.address, key, value },
                Pending::Tstore,
            )
            &&& run_request(
                handler,
                cfg,
                EvmApiMethod::SetTransientBytes32,
                data,
                seq![Reply::Tstore],
            ) == StepView::Done(Response { result: seq![0u8], data: seq![], gas: 0 })
        }),
{
    lemma_word_at_front(key, rest);
    let read = handler.first_step(cfg, EvmApiMethod::GetTransientBytes32, key@ + rest);
    lemma_replies(handler, cfg, read, Reply::Tload(loaded), Reply::Tstore);
    assert(key@ + value@ + rest =~= key@ + (value@ + rest));
    lemma_word_at_front(key, value@ + rest);
    law_word_read_back(key@, value, rest);
    let write = handler.first_step(cfg, EvmApiMethod::SetTransientBytes32, key@ + value@ + rest);
    lemma_replies(handler, cfg, write, Reply::Tstore, Reply::Tstore);
}

/// A call first has the host load the account asked for. Then it opens a frame that runs the code of
/// that account on the calldata sent along, called by the handler's own account, with the value asked
/// for transferred and no output put into memory. The frame is of the kind asked for: a delegate call
/// works on the storage of the handler's own account and any other call on that of the callee, and a
/// static call, or any call of a static handler, is static.
///
/// The gas given to the frame is what was asked for or, from the fork on that holds gas back, all but
/// a 64th of the gas left where that is less. The gas in the answer is what the frame was given and
/// the price of the call, less what the frame left.
#[verifier::spinoff_prover]
pub proof fn law_call(
    handler: StylusHandler,
    cfg: Cfg,
    method: EvmApiMethod,
    address: Address,
    value: Word,
    gas_left: u64,
    gas_limit: u64,
    calldata: Seq<u8>,
    load: StateLoad<gas::AccountLoad>,
    outcome: InterpreterResult<Seq<u8>>,
)
    requires
        method == EvmApiMethod::ContractCall || method == EvmApiMethod::DelegateCall || method
            == EvmApiMethod::StaticCall,
        !handler.is_static || be_value(value@) == 0,
    ensures
        ({
            let data = encoded_call(address, value, gas_left, gas_limit, calldata);
            let loaded = Reply::LoadAccount(Some(load));
            let price = gas::call_price(
                cfg.spec.number(),
                be_value(value@) != 0,
                load.data,
                load.is_cold,
            );
            &&& handler.admits(cfg, method, data)
            &&& run_request(handler, cfg, method, data, seq![]) matches Step::Act(
                Action::LoadAccount { address: callee },
                _,
            ) && callee == address
            &&& run_request(handler, cfg, method, data, seq![Reply::LoadAccount(None)]) == StepView::Done(Response { result: seq![1u8], data: seq![], gas: gas_left })
            &&& run_request(handler, cfg, method, data, seq![loaded]) matches Step::Act(
                Action::Call(inputs),
                _,
            ) && {
                &&& inputs.input == calldata
                &&& inputs.return_memory_offset.start == inputs.return_memory_offset.end
                &&& inputs.return_memory_offset.start == 0
                &&& inputs.bytecode_address == address
                &&& method == EvmApiMethod::DelegateCall ==> inputs.target_address == handler.address
                &&& method != EvmApiMethod::DelegateCall ==> inputs.target_address == address
                &&& inputs.caller == handler.address
                &&& inputs.value == CallValue::Transfer(value)
                &&& method == EvmApiMethod::ContractCall ==> inputs.scheme == CallScheme::Call
                &&& method == EvmApiMethod::DelegateCall ==> inputs.scheme == CallScheme::DelegateCall
                &&& method == EvmApiMethod::StaticCall ==> inputs.scheme == CallScheme::StaticCall
                &&& inputs.is_static <==> handler.is_static || method == EvmApiMethod::StaticCall
                &&& !inputs.is_eof
                &&& inputs.gas_limit == if cfg.spec.enables(SpecId::TANGERINE) && gas_left - gas_left / 64
                    < gas_limit {
                    gas_left - gas_left / 64
                } else {
                    gas_limit as int
                }
                &&& outcome.gas.remaining <= inputs.gas_limit + price <= u64::MAX ==> run_request(
                    handler,
                    cfg,
                    method,
                    data,
                    seq![loaded, Reply::Frame(FrameResult::Call(outcome))],
                ) == StepView::Done(
                    Response {
                        result: seq![0u8],
                        data: outcome.output,
                        gas: (inputs.gas_limit + price - outcome.gas.remaining) as u64,
                    },
                )
            }
        }),
{
    law_call_read_back(method, address, value, gas_left, gas_limit, calldata);
    lemma_be_range_machine();
    law_be_bytes_read_back(gas_left as nat, 8);
    law_be_bytes_read_back(gas_limit as nat, 8);
    law_zero_word_spells_zero(value);
    let loaded = Reply::<Seq<u8>>::LoadAccount(Some(load));
    let frame = Reply::<Seq<u8>>::Frame(FrameResult::Call(outcome));
    let data = encoded_call(address, value, gas_left, gas_limit, calldata);
    let first = handler.first_step(cfg, method, data);
    assert(first == handler.call_step(method, data));
    lemma_replies(handler, cfg, first, Reply::LoadAccount(None), frame);
    lemma_replies(handler, cfg, first, loaded, frame);
}

/// A creation that a handler may make, from the fork on that has salts if it has one, whose init code
/// is no longer than twice the limit on code where that is limited, and whose price is within the gas
/// offered, opens a frame with the value, the salt and the init code that the request encodes. The
/// frame gets what the price leaves of the gas, or all but a 64th of it from the fork on that holds gas
/// back. Any other is answered at once, with failure or, where only the gas is short, with that, and
/// keeps its gas.
#[verifier::spinoff_prover]
pub proof fn law_create(
    handler: StylusHandler,
    cfg: Cfg,
    gas: u64,
    value: Word,
    salt: Option<Word>,
    code: Seq<u8>,
    words: int,
)
    requires
        !handler.is_static,
        code.len() + 31 <= usize::MAX,
        32 * (words - 1) < code.len() <= 32 * words,
    ensures
        ({
            let data = encoded_create(gas, value, salt, code);
            let method = if salt is Some { EvmApiMethod::Create2 } else { EvmApiMethod::Create1 };
            let square = if words * words > u64::MAX { u64::MAX as int } else { words * words };
            let metering = if cfg.spec.enables(SpecId::SHANGHAI) { 2 * words } else { 0 };
            let hashing = if salt is Some { 6 * words } else { 0 };
            let price = 32000 + 3 * words + square / 512 + metering + hashing;
            let step = run_request(handler, cfg, method, data, seq![]);
            if salt is Some && !cfg.spec.enables(SpecId::PETERSBURG) || cfg.spec.enables(SpecId::SHANGHAI)
                && code.len() > 2 * cfg.max_code_size {
                step == StepView::Done(Response { result: seq![1u8], data: seq![], gas })
            } else if price > gas {
                step == StepView::Done(Response { result: seq![2u8], data: seq![], gas })
            } else {
                let left = gas - price;
                &&& step matches Step::Act(Action::Create(inputs), _)
                &&& inputs.caller == handler.address
                &&& inputs.value == value
                &&& inputs.scheme == match salt {
                    Some(salt) => CreateScheme::Create2 { salt },
                    None => CreateScheme::Create,
                }
                &&& inputs.init_code == code
                &&& inputs.gas_limit == if cfg.spec.enables(SpecId::TANGERINE) {
                    left - left / 64
                } else {
                    left
                }
            }
        }),
{
    law_create_read_back(gas, value, salt, code);
    law_create_price(cfg, salt is Some, code.len() as usize, words);
    let first = handler.create_step(cfg, salt is Some, encoded_create(gas, value, salt, code));
    lemma_replies(handler, cfg, first, Reply::Tstore, Reply::Tstore);
}

/// A creation that opened a frame is answered by how the frame ended. What the frame used up and what
/// the creation paid before are charged together; where that is more than the gas offered, the
/// creation is out of gas. A frame that returned gives a one and the address of the new contract, or
/// zeros where there is none; one that reverted gives a one and zeros; both hand on their output. Any
/// other ending, and anything but a creation that the host ran, is a failure that keeps the gas.
#[verifier::spinoff_prover]
#[verifier::rlimit(30)]
pub proof fn law_created(
    handler: StylusHandler,
    cfg: Cfg,
    gas: u64,
    value: Word,
    salt: Option<Word>,
    code: Seq<u8>,
    outcome: InterpreterResult<Seq<u8>>,
    address: Option<Address>,
    frame: FrameResult<Seq<u8>>,
    words: int,
)
    requires
        !handler.is_static,
        code.len() + 31 <= usize::MAX,
        32 * (words - 1) < code.len() <= 32 * words,
        outcome.gas.remaining <= outcome.gas.limit,
        frame == FrameResult::Call(outcome) || frame == FrameResult::Create(outcome, address) || frame
            == FrameResult::EofCreate(outcome, address),
        run_request(
            handler,
            cfg,
            if salt is Some { EvmApiMethod::Create2 } else { EvmApiMethod::Create1 },
            encoded_create(gas, value, salt, code),
            seq![],
        ) is Act,
    ensures
        ({
            let data = encoded_create(gas, value, salt, code);
            let method = if salt is Some { EvmApiMethod::Create2 } else { EvmApiMethod::Create1 };
            let square = if words * words > u64::MAX { u64::MAX as int } else { words * words };
            let metering = if cfg.spec.enables(SpecId::SHANGHAI) { 2 * words } else { 0 };
            let hashing = if salt is Some { 6 * words } else { 0 };
            let price = 32000 + 3 * words + square / 512 + metering + hashing;
            let total = price + (outcome.gas.limit - outcome.gas.remaining);
            let zeros = Seq::new(20, |i: int| 0u8);
            run_request(handler, cfg, method, data, seq![Reply::Frame(frame)]) == StepView::Done(
                if total > gas {
                    Response { result: seq![2u8], data: seq![], gas }
                } else if frame is Create && outcome.result == InstructionResult::Return {
                    Response {
                        result: seq![1u8] + match address {
                            Some(address) => address@,
                            None => zeros,
                        },
                        data: outcome.output,
                        gas: total as u64,
                    }
                } else if frame is Create && outcome.result == InstructionResult::Revert {
                    Response { result: seq![1u8] + zeros, data: outcome.output, gas: total as u64 }
                } else {
                    Response { result: seq![1u8], data: seq![], gas }
                },
            )
        }),
{
    let data = encoded_create(gas, value, salt, code);
    let first = handler.create_step(cfg, salt is Some, data);
    law_create_read_back(gas, value, salt, code);
    law_create_price(cfg, salt is Some, code.len() as usize, words);
    lemma_replies(handler, cfg, first, Reply::Frame(frame), Reply::Tstore);
    let answer = StylusHandler::created_response(
        gas,
        create_price(cfg, salt is Some, code.len() as usize) as u64,
        frame,
    );
    assert(run(handler, cfg, first, seq![Reply::Frame(frame)]) == StepView::Done(answer));
    assert(frame_outcome(frame) == outcome);
}

/// Whatever a request has been charged so far, a finished frame is answered by what it returned: the
/// frame of a call by its output and all the gas charged for it but what it left, the frame of a
/// creation by the address where it returned and by zeros where it reverted, as long as the gas
/// suffices.
pub proof fn law_finished_frames(
    handler: StylusHandler,
    cfg: Cfg,
    offered: u64,
    charged: u64,
    outcome: InterpreterResult<Seq<u8>>,
    address: Address,
)
    requires
        outcome.gas.remaining <= outcome.gas.limit,
    ensures
        ({
            let pending = Pending::CallFrame { gas_limit: offered, call_cost: charged };
            let frame = Reply::Frame(FrameResult::Call(outcome));
            handler.accepts(cfg, pending, frame) ==> (handler.next_step(cfg, pending, frame) matches Step::Done(
                response,
            ) && {
                &&& response.result == seq![0u8]
                &&& response.data == outcome.output
                &&& response.gas + outcome.gas.remaining == offered + charged
            })
        }),
        ({
            let pending = Pending::CreateFrame { gas_remaining: offered, gas_cost: charged };
            let frame = Reply::Frame(FrameResult::Create(outcome, Some(address)));
            let suffices = charged + outcome.gas.limit - outcome.gas.remaining <= offered;
            handler.accepts(cfg, pending, frame) ==> (handler.next_step(cfg, pending, frame) matches Step::Done(
                response,
            ) && {
                &&& !suffices ==> response.result == seq![2u8]
                &&& suffices && outcome.result == InstructionResult::Return ==> response.result
                    == seq![1u8] + address@
                &&& suffices && outcome.result == InstructionResult::Revert ==> response.result
                    == seq![1u8] + Seq::new(20, |i: int| 0u8)
                &&& suffices && outcome.result == InstructionResult::Other ==> response.result == seq![1u8]
                &&& if suffices && outcome.result != InstructionResult::Other {
                    &&& response.data == outcome.output
                    &&& response.gas == charged + outcome.gas.limit - outcome.gas.remaining
                } else {
                    &&& response.data == Seq::<u8>::empty()
                    &&& response.gas == offered
                }
            })
        }),
{
}

/// Whatever a slot write has been charged so far, a stored slot adds its price. The write goes on with
/// the next 64 bytes, a key and a value, as long as the sum is within the gas, and succeeds with the gas
/// that is left when no bytes are; a slot that the host cannot store is a failure.
pub proof fn law_stored_slot(
    handler: StylusHandler,
    cfg: Cfg,
    gas_left: u64,
    total_cost: u64,
    stored: StateLoad<gas::SStoreResult>,
    key: Word,
    value: Word,
    rest: Seq<u8>,
)
    requires
        total_cost + gas::sstore_price(cfg.spec.number(), stored.data, stored.is_cold) <= u64::MAX,
    ensures
        ({
            let total = total_cost + gas::sstore_price(cfg.spec.number(), stored.data, stored.is_cold);
            let slots = key@ + value@ + rest;
            let more = Pending::Sstore { gas_left, total_cost, rest: slots };
            let last = Pending::Sstore { gas_left, total_cost, rest: Seq::empty() };
            let reply = Reply::Sstore(Some(stored));
            &&& handler.accepts(cfg, more, reply) && handler.accepts(cfg, last, reply)
            &&& if total > gas_left {
                let short = StepView::Done(Response { result: seq![2u8], data: seq![], gas: gas_left });
                &&& handler.next_step(cfg, more, reply) == short
                &&& handler.next_step(cfg, last, reply) == short
            } else {
                &&& handler.next_step(cfg, more, reply) == StepView::Act(
                    Action::Sstore { address: handler.address, key, value },
                    Pending::Sstore { gas_left, total_cost: total as u64, rest },
                )
                &&& handler.next_step(cfg, last, reply) == StepView::Done(
                    Response { result: seq![0u8], data: seq![], gas: (gas_left - total) as u64 },
                )
            }
            &&& handler.next_step(cfg, more, Reply::Sstore(None)) == StepView::Done(
                Response { result: seq![1u8], data: seq![], gas: gas_left },
            )
        }),
{
    let slots = key@ + value@ + rest;
    assert(slots =~= key@ + (value@ + rest));
    lemma_word_at_front(key, value@ + rest);
    law_word_read_back(key@, value, rest);
    assert(slots.skip(64) =~= rest);
}

/// A log request has the host log, for the handler's own account, exactly the topics that it encodes,
/// in their order, and the data after them; the answer is empty and free.
pub proof fn law_log(handler: StylusHandler, cfg: Cfg, topics: Seq<Word>, data: Seq<u8>)
    requires
        topics.len() <= u32::MAX,
    ensures
        handler.admits(cfg, EvmApiMethod::EmitLog, encoded_log(topics, data)),
        run_request(handler, cfg, EvmApiMethod::EmitLog, encoded_log(topics, data), seq![])
            == StepView::Act(
            Action::EmitLog(Log { address: handler.address, topics, data }),
            Pending::EmitLog,
        ),
        run_request(
            handler,
            cfg,
            EvmApiMethod::EmitLog,
            encoded_log(topics, data),
            seq![Reply::EmitLog],
        ) == StepView::Done(Response { result: seq![], data: seq![], gas: 0 }),
{
    let first = handler.first_step(cfg, EvmApiMethod::EmitLog, encoded_log(topics, data));
    lemma_replies(handler, cfg, first, Reply::EmitLog, Reply::Tstore);
    law_log_read_back(handler.address, topics, data);
    lemma_be_range_machine();
    law_be_bytes_read_back(topics.len(), 4);
    assert(encoded_log(topics, data).take(4) =~= be_bytes(topics.len(), 4));
}

/// The topics of a log are encoded one after the other, 32 bytes each.
pub proof fn law_topics_are_joined(topics: Seq<Word>, topic: Word)
    ensures
        joined_words(Seq::empty()) == Seq::<u8>::empty(),
        joined_words(topics.push(topic)) == joined_words(topics) + topic@,
{
    assert(joined_words(Seq::empty()) =~= Seq::<u8>::empty());
    assert(joined_words(topics.push(topic)) =~= joined_words(topics) + topic@);
}

/// An account query has the host look up the very account asked for. The balance and the code hash
/// are answered as their bytes, the code is returned as data; each costs the touch of the account:
/// 2600 the first time, 100 after that, and for the code 700 more for each time that 24576 bytes go
/// into the code size limit. Bytes after the address do not matter.
pub proof fn law_account_queries(
    handler: StylusHandler,
    cfg: Cfg,
    address: Address,
    rest: Seq<u8>,
    word: Word,
    code: Seq<u8>,
    is_cold: bool,
    units: int,
)
    requires
        24576 * units <= cfg.max_code_size < 24576 * (units + 1),
    ensures
        ({
            let data = address@ + rest;
            let touch: int = if is_cold { 2600 } else { 100 };
            let found = Some(StateLoad { data: word, is_cold });
            &&& run_request(handler, cfg, EvmApiMethod::AccountBalance, data, seq![]) == StepView::Act(
                Action::Balance { address },
                Pending::Balance,
            )
            &&& run_request(handler, cfg, EvmApiMethod::AccountCode, data, seq![]) == StepView::Act(
                Action::Code { address },
                Pending::Code,
            )
            &&& run_request(handler, cfg, EvmApiMethod::AccountCodeHash, data, seq![]) == StepView::Act(
                Action::CodeHash { address },
                Pending::CodeHash,
            )
            &&& run_request(
                handler,
                cfg,
                EvmApiMethod::AccountBalance,
                data,
                seq![Reply::Balance(found)],
            ) == StepView::Done(
                Response { result: word@, data: seq![], gas: touch as u64 },
            )
            &&& run_request(
                handler,
                cfg,
                EvmApiMethod::AccountCodeHash,
                data,
                seq![Reply::CodeHash(found)],
            ) == StepView::Done(
                Response { result: word@, data: seq![], gas: touch as u64 },
            )
            &&& run_request(
                handler,
                cfg,
                EvmApiMethod::AccountCode,
                data,
                seq![Reply::Code(Some(StateLoad { data: code, is_cold }))],
            ) == StepView::Done(
                Response { result: seq![], data: code, gas: (touch + 700 * units) as u64 },
            )
        }),
{
    lemma_address_at_front(address, rest);
    law_account_touch_price(cfg, is_cold, units);
    let data = address@ + rest;
    let found = Some(StateLoad { data: word, is_cold });
    let balance = handler.first_step(cfg, EvmApiMethod::AccountBalance, data);
    lemma_replies(handler, cfg, balance, Reply::Balance(found), Reply::Tstore);
    let account_code = handler.first_step(cfg, EvmApiMethod::AccountCode, data);
    let loaded = Reply::Code(Some(StateLoad { data: code, is_cold }));
    lemma_replies(handler, cfg, account_code, loaded, Reply::Tstore);
    let hash = handler.first_step(cfg, EvmApiMethod::AccountCodeHash, data);
    lemma_replies(handler, cfg, hash, Reply::CodeHash(found), Reply::Tstore);
}

/// Taking pages and tracing need nothing of the host: they succeed at once, free of charge.
pub proof fn law_pages_and_traces(handler: StylusHandler, cfg: Cfg, data: Seq<u8>, replies: Seq<Reply<Seq<u8>>>)
    ensures
        run_request(handler, cfg, EvmApiMethod::AddPages, data, replies) == StepView::Done(
            Response { result: seq![0u8], data: seq![], gas: 0 },
        ),
        run_request(handler, cfg, EvmApiMethod::CaptureHostIO, data, replies) == StepView::Done(Response { result: seq![0u8], data: seq![], gas: 0 }),
{
}

} // verus!
