//! What holds of whole requests, from the first step to the answer.

use vstd::prelude::*;

use crate::gas;
use crate::spec_id::SpecId;
use crate::stylus::handler::StylusHandler;
use crate::stylus::message::{
    Action, CallInputs, CallRequest, CallScheme, CallValue, Cfg, CreateScheme, EvmApiMethod,
    FrameResult, InstructionResult, Log, Pending, Reply, Response, StateLoad, Status, Step,
};
use crate::stylus::protocol::{
    call_gas_limit, create_price, decoded_call, decoded_log, frame_gas_spent, frame_outcome, gas_for_callee,
    init_code, init_code_too_long, status_response, u64_at, StepView,
};
use crate::wire::{
    address_at, be_bytes, is_zero_word, law_be_bytes_read_back, law_word_read_back,
    lemma_address_at_front, lemma_be_range_machine, lemma_word_at_front, word_at, Address, Word,
};

verus! {

/// Where a request stands after the host has given `replies` in turn, starting from `step`.
pub open spec fn run(
    handler: StylusHandler,
    cfg: Cfg,
    step: StepView,
    replies: Seq<Reply<Seq<u8>>>,
) -> StepView
    decreases replies.len(),
{
    match step {
        Step::Done(_) => step,
        Step::Act(_, pending) => if replies.len() == 0 {
            step
        } else {
            run(handler, cfg, handler.next_step(cfg, pending, replies.first()), replies.drop_first())
        },
    }
}

/// Without a reply a request stands where it is, one reply carries it one step further, and two carry
/// it two.
pub proof fn lemma_replies(
    handler: StylusHandler,
    cfg: Cfg,
    step: StepView,
    first: Reply<Seq<u8>>,
    second: Reply<Seq<u8>>,
)
    ensures
        run(handler, cfg, step, seq![]) == step,
        step matches Step::Act(_, pending) ==> {
            let next = handler.next_step(cfg, pending, first);
            &&& run(handler, cfg, step, seq![first]) == next
            &&& next matches Step::Act(_, later) ==> run(handler, cfg, step, seq![first, second])
                == handler.next_step(cfg, later, second)
        },
{
    reveal_with_fuel(run, 3);
    assert(seq![first].drop_first() =~= seq![]);
    assert(seq![first, second].drop_first() =~= seq![second]);
    assert(seq![second].drop_first() =~= seq![]);
}

/// Where a request stands after the host has given `replies` in turn.
pub open spec fn run_request(
    handler: StylusHandler,
    cfg: Cfg,
    method: EvmApiMethod,
    data: Seq<u8>,
    replies: Seq<Reply<Seq<u8>>>,
) -> StepView {
    run(handler, cfg, handler.first_step(cfg, method, data), replies)
}

/// Whether the handler takes each of `replies` in turn, starting from `step`.
pub open spec fn takes_all(
    handler: StylusHandler,
    cfg: Cfg,
    step: StepView,
    replies: Seq<Reply<Seq<u8>>>,
) -> bool
    decreases replies.len(),
{
    match step {
        Step::Done(_) => true,
        Step::Act(_, pending) => replies.len() == 0 || {
            &&& handler.accepts(cfg, pending, replies.first())
            &&& takes_all(
                handler,
                cfg,
                handler.next_step(cfg, pending, replies.first()),
                replies.drop_first(),
            )
        },
    }
}

/// Whether an action is one that a program without the right to change state is refused: a write
/// to storage or transient storage, a creation, or a call that transfers value.
pub open spec fn is_guarded(action: Action<Seq<u8>, Seq<Word>>) -> bool {
    match action {
        Action::Sstore { .. } | Action::Tstore { .. } | Action::Create(_) => true,
        Action::Call(inputs) => inputs.value matches CallValue::Transfer(value) && !is_zero_word(value),
        _ => false,
    }
}

/// What every step keeps holds at the end of a run if it holds at its start.
proof fn lemma_run_keeps(
    handler: StylusHandler,
    cfg: Cfg,
    kept: spec_fn(StepView) -> bool,
    step: StepView,
    replies: Seq<Reply<Seq<u8>>>,
)
    requires
        kept(step),
        forall|action: Action<Seq<u8>, Seq<Word>>, pending: Pending<Seq<u8>>, reply: Reply<Seq<u8>>|
            #![trigger kept(Step::Act(action, pending)), handler.next_step(cfg, pending, reply)]
            kept(Step::Act(action, pending)) ==> kept(handler.next_step(cfg, pending, reply)),
    ensures
        kept(run(handler, cfg, step, replies)),
    decreases replies.len(),
{
    if let Step::Act(action, pending) = step {
        if replies.len() > 0 {
            let next = handler.next_step(cfg, pending, replies.first());
            assert(kept(Step::Act(action, pending)));
            assert(kept(next));
            lemma_run_keeps(handler, cfg, kept, next, replies.drop_first());
        }
    }
}

/// What keeps a static handler from guarded actions while it waits.
spec fn is_harmless(step: StepView) -> bool {
    step matches Step::Act(action, pending) ==> {
        &&& !is_guarded(action)
        &&& action matches Action::Call(inputs) ==> inputs.is_static
        &&& pending !is Sstore
        &&& pending matches Pending::LoadAccount(request) ==> is_zero_word(request.value)
    }
}

/// A static handler never has the host write, create or transfer value, whatever is requested and
/// whatever the host replies, and every call frame that it opens is static in turn.
pub proof fn law_static_handler_is_harmless(
    handler: StylusHandler,
    cfg: Cfg,
    method: EvmApiMethod,
    data: Seq<u8>,
    replies: Seq<Reply<Seq<u8>>>,
)
    requires
        handler.is_static,
    ensures
        run_request(handler, cfg, method, data, replies) matches Step::Act(action, _) ==> {
            &&& !is_guarded(action)
            &&& action matches Action::Call(inputs) ==> inputs.is_static
        },
{
    lemma_run_keeps(
        handler,
        cfg,
        |step: StepView| is_harmless(step),
        handler.first_step(cfg, method, data),
        replies,
    );
}

/// Whether a request is one that the handler refuses for want of the right to change state: a write
/// to storage or transient storage, a creation, or a call with a value, made of a static handler.
pub open spec fn is_write_protected(handler: StylusHandler, method: EvmApiMethod, data: Seq<u8>) -> bool {
    handler.is_static && match method {
        EvmApiMethod::SetTrieSlots
        | EvmApiMethod::SetTransientBytes32
        | EvmApiMethod::Create1
        | EvmApiMethod::Create2 => true,
        EvmApiMethod::ContractCall | EvmApiMethod::DelegateCall | EvmApiMethod::StaticCall => {
            !is_zero_word(word_at(data, 20))
        },
        _ => false,
    }
}

/// The gas in the answer to a refused write: slot writes and calls get theirs back; transient writes
/// and creations report none.
pub open spec fn refused_gas(method: EvmApiMethod, data: Seq<u8>) -> u64 {
    match method {
        EvmApiMethod::SetTrieSlots => u64_at(data, 0),
        EvmApiMethod::ContractCall | EvmApiMethod::DelegateCall | EvmApiMethod::StaticCall => u64_at(
            data,
            52,
        ),
        _ => 0,
    }
}

/// A static handler answers every request to write, to create and to transfer value with write
/// protection, before the host has done anything for it; no other request is answered so, of a
/// static handler or of another, whatever the host replies.
pub proof fn law_static_writes_are_refused(
    handler: StylusHandler,
    cfg: Cfg,
    method: EvmApiMethod,
    data: Seq<u8>,
    replies: Seq<Reply<Seq<u8>>>,
)
    ensures
        is_write_protected(handler, method, data) ==> run_request(handler, cfg, method, data, replies)
            == Step::<_, Seq<Word>>::Done(
            status_response(Status::WriteProtection, refused_gas(method, data)),
        ),
        !is_write_protected(handler, method, data) ==> (run_request(
            handler,
            cfg,
            method,
            data,
            replies,
        ) matches Step::Done(response) ==> response.result != seq![Status::WriteProtection.code()]),
{
    if !is_write_protected(handler, method, data) {
        lemma_run_keeps(
            handler,
            cfg,
            |step: StepView| is_not_refusal(step),
            handler.first_step(cfg, method, data),
            replies,
        );
    }
}

/// Whether a step is anything but an answer of write protection.
spec fn is_not_refusal(step: StepView) -> bool {
    step matches Step::Done(response) ==> response.result.len() != 1 || response.result[0]
        != Status::WriteProtection.code()
}

/// What a call request is about while it waits.
spec fn is_about_call(handler: StylusHandler, cfg: Cfg, request: CallRequest<Seq<u8>>, step: StepView) -> bool {
    match step {
        Step::Act(action, pending) => match pending {
            Pending::LoadAccount(loading) => loading == request && action is LoadAccount,
            Pending::CallFrame { .. } => action == Action::<_, Seq<Word>>::Call(
                handler.call_inputs(cfg, request),
            ),
            _ => false,
        },
        Step::Done(_) => true,
    }
}

/// The frame that a call request opens runs the code of the account asked for, on the calldata
/// sent along; the value is transferred, and no output goes into memory. A delegate call runs the
/// code on the storage of the handler's own account, every other call on that of the callee. A
/// static call is static even where the handler is not. The frame gets the gas asked for or, from the
/// fork on that holds gas back, all but a 64th of the gas left where that is less.
pub proof fn law_call_frame(
    handler: StylusHandler,
    cfg: Cfg,
    method: EvmApiMethod,
    data: Seq<u8>,
    replies: Seq<Reply<Seq<u8>>>,
)
    requires
        method == EvmApiMethod::ContractCall || method == EvmApiMethod::DelegateCall || method
            == EvmApiMethod::StaticCall,
        handler.admits(cfg, method, data),
    ensures
        run_request(handler, cfg, method, data, replies) matches Step::Act(Action::Call(inputs), _)
            ==> {
            let callee = address_at(data, 0);
            &&& inputs.bytecode_address == callee
            &&& inputs.target_address == if method == EvmApiMethod::DelegateCall {
                handler.address
            } else {
                callee
            }
            &&& inputs.caller == handler.address
            &&& inputs.input == data.skip(68)
            &&& inputs.value == CallValue::Transfer(word_at(data, 20))
            &&& inputs.is_static == (handler.is_static || method == EvmApiMethod::StaticCall)
            &&& !inputs.is_eof
            &&& inputs.return_memory_offset.start == 0 && inputs.return_memory_offset.end == 0
            &&& inputs.scheme == match method {
                EvmApiMethod::DelegateCall => CallScheme::DelegateCall,
                EvmApiMethod::StaticCall => CallScheme::StaticCall,
                _ => CallScheme::Call,
            }
            &&& inputs.gas_limit <= u64_at(data, 60)
            &&& inputs.gas_limit <= gas_for_callee(cfg.spec, u64_at(data, 52)) || !cfg.spec.enables(
                SpecId::TANGERINE,
            )
            &&& inputs.gas_limit == u64_at(data, 60) || cfg.spec.enables(SpecId::TANGERINE)
                && inputs.gas_limit == gas_for_callee(cfg.spec, u64_at(data, 52))
        },
{
    let request = decoded_call(method, data);
    lemma_run_keeps(
        handler,
        cfg,
        |step: StepView| is_about_call(handler, cfg, request, step),
        handler.first_step(cfg, method, data),
        replies,
    );
}

/// What a creation is about while it waits.
spec fn is_within_gas(step: StepView, gas_remaining: u64) -> bool {
    match step {
        Step::Act(action, pending) => {
            &&& pending matches Pending::CreateFrame { gas_remaining: offered, gas_cost }
            &&& offered == gas_remaining
            &&& gas_cost <= gas_remaining
            &&& action matches Action::Create(inputs)
            &&& inputs.gas_limit + gas_cost <= gas_remaining
        },
        Step::Done(response) => response.gas <= gas_remaining,
    }
}

proof fn lemma_create_run(
    handler: StylusHandler,
    cfg: Cfg,
    step: StepView,
    gas_remaining: u64,
    replies: Seq<Reply<Seq<u8>>>,
)
    requires
        is_within_gas(step, gas_remaining),
        takes_all(handler, cfg, step, replies),
    ensures
        is_within_gas(run(handler, cfg, step, replies), gas_remaining),
    decreases replies.len(),
{
    if let Step::Act(_, pending) = step {
        if replies.len() > 0 {
            lemma_create_run(
                handler,
                cfg,
                handler.next_step(cfg, pending, replies.first()),
                gas_remaining,
                replies.drop_first(),
            );
        }
    }
}

/// A creation never costs more than the gas offered for it: the gas of its frame and the price
/// charged before the frame runs fit in the offer together, and so does the gas in the answer.
pub proof fn law_create_stays_within_gas(
    handler: StylusHandler,
    cfg: Cfg,
    salted: bool,
    data: Seq<u8>,
    replies: Seq<Reply<Seq<u8>>>,
)
    requires
        handler.admits(cfg, if salted { EvmApiMethod::Create2 } else { EvmApiMethod::Create1 }, data),
        takes_all(handler, cfg, handler.create_step(cfg, salted, data), replies),
    ensures
        match run_request(
            handler,
            cfg,
            if salted { EvmApiMethod::Create2 } else { EvmApiMethod::Create1 },
            data,
            replies,
        ) {
            Step::Act(action, _) => {
                &&& action matches Action::Create(inputs)
                &&& inputs.gas_limit + create_price(
                    cfg,
                    salted,
                    init_code(salted, data).len() as usize,
                ) <= u64_at(data, 0)
            },
            Step::Done(response) => response.gas <= u64_at(data, 0),
        },
{
    let first = handler.create_step(cfg, salted, data);
    lemma_create_run(handler, cfg, first, u64_at(data, 0), replies);
    if let Step::Act(_, pending) = first {
        if replies.len() > 0 {
            let last = handler.next_step(cfg, pending, replies.first());
            assert(last is Done);
            assert(run(handler, cfg, last, replies.drop_first()) == last);
        }
    }
}

/// Whenever a creation opens a frame, the frame is the one that the request encodes: the value, the
/// salt of a salted creation, and the init code after them, for the handler's own account.
pub proof fn law_create_frame(
    handler: StylusHandler,
    cfg: Cfg,
    method: EvmApiMethod,
    data: Seq<u8>,
    replies: Seq<Reply<Seq<u8>>>,
)
    ensures
        method == EvmApiMethod::Create1 ==> (run_request(handler, cfg, method, data, replies) matches Step::Act(
            action,
            _,
        ) ==> {
            &&& action matches Action::Create(inputs)
            &&& inputs.caller == handler.address
            &&& inputs.scheme == CreateScheme::Create
            &&& inputs.value == word_at(data, 8)
            &&& inputs.init_code == data.skip(40)
        }),
        method == EvmApiMethod::Create2 ==> (run_request(handler, cfg, method, data, replies) matches Step::Act(
            action,
            _,
        ) ==> {
            &&& action matches Action::Create(inputs)
            &&& inputs.caller == handler.address
            &&& inputs.scheme == CreateScheme::Create2 { salt: word_at(data, 40) }
            &&& inputs.value == word_at(data, 8)
            &&& inputs.init_code == data.skip(72)
        }),
{
    let first = handler.first_step(cfg, method, data);
    if method == EvmApiMethod::Create1 || method == EvmApiMethod::Create2 {
        lemma_run_keeps(
            handler,
            cfg,
            |step: StepView|
                step is Act ==> {
                    &&& step == first
                    &&& step->Act_1 is CreateFrame
                },
            first,
            replies,
        );
    }
}

/// One more reply carries a run one step further.
proof fn lemma_run_push(
    handler: StylusHandler,
    cfg: Cfg,
    step: StepView,
    replies: Seq<Reply<Seq<u8>>>,
    reply: Reply<Seq<u8>>,
)
    ensures
        run(handler, cfg, step, replies.push(reply)) == match run(handler, cfg, step, replies) {
            Step::Done(response) => Step::Done(response),
            Step::Act(_, pending) => handler.next_step(cfg, pending, reply),
        },
    decreases replies.len(),
{
    let longer = replies.push(reply);
    if let Step::Act(_, pending) = step {
        let next = handler.next_step(cfg, pending, longer.first());
        if replies.len() == 0 {
            assert(longer.drop_first() =~= Seq::empty());
            assert(run(handler, cfg, next, longer.drop_first()) == next);
        } else {
            assert(longer.drop_first() =~= replies.drop_first().push(reply));
            lemma_run_push(handler, cfg, next, replies.drop_first(), reply);
        }
    }
}

/// The gas charged for a list of stored slots.
pub open spec fn stores_price(cfg: Cfg, stores: Seq<StateLoad<gas::SStoreResult>>) -> int
    decreases stores.len(),
{
    if stores.len() == 0 {
        0
    } else {
        stores_price(cfg, stores.drop_last()) + gas::sstore_price(
            cfg.spec.number(),
            stores.last().data,
            stores.last().is_cold,
        )
    }
}

/// The replies by which the host reports a list of stored slots.
pub open spec fn stored_replies(stores: Seq<StateLoad<gas::SStoreResult>>) -> Seq<Reply<Seq<u8>>> {
    stores.map_values(|stored: StateLoad<gas::SStoreResult>| Reply::<Seq<u8>>::Sstore(Some(stored)))
}

/// How many whole slots a slot write encodes after the gas.
pub open spec fn slot_count(data: Seq<u8>) -> int {
    (data.len() - 8) / 64
}

/// More stores never cost less.
proof fn lemma_stores_price_monotonic(
    cfg: Cfg,
    stores: Seq<StateLoad<gas::SStoreResult>>,
    fewer: int,
    more: int,
)
    requires
        0 <= fewer <= more <= stores.len(),
    ensures
        0 <= stores_price(cfg, stores.take(fewer)) <= stores_price(cfg, stores.take(more)),
    decreases more,
{
    if fewer < more {
        lemma_stores_price_monotonic(cfg, stores, fewer, more - 1);
        assert(stores.take(more).drop_last() =~= stores.take(more - 1));
    } else if more > 0 {
        lemma_stores_price_monotonic(cfg, stores, fewer - 1, more - 1);
        assert(stores.take(more).drop_last() =~= stores.take(more - 1));
    }
}

/// Where a slot write stands after `stores`, as long as their price is within the gas.
proof fn lemma_slots_run(
    handler: StylusHandler,
    cfg: Cfg,
    data: Seq<u8>,
    stores: Seq<StateLoad<gas::SStoreResult>>,
)
    requires
        !handler.is_static,
        data.len() >= 8,
        stores.len() <= slot_count(data),
        stores_price(cfg, stores) <= u64_at(data, 0),
    ensures
        run_request(handler, cfg, EvmApiMethod::SetTrieSlots, data, stored_replies(stores))
            == handler.slots_step(
            u64_at(data, 0),
            stores_price(cfg, stores) as u64,
            data.skip(8 + 64 * stores.len() as int),
        ),
        0 <= stores_price(cfg, stores),
    decreases stores.len(),
{
    if stores.len() > 0 {
        let before = stores.drop_last();
        assert(stores.take(stores.len() as int) =~= stores);
        assert(stores.take(stores.len() - 1) =~= before);
        lemma_stores_price_monotonic(cfg, stores, stores.len() - 1, stores.len() as int);
        lemma_slots_run(handler, cfg, data, before);
        let reply = Reply::<Seq<u8>>::Sstore(Some(stores.last()));
        assert(stored_replies(stores) =~= stored_replies(before).push(reply));
        lemma_run_push(
            handler,
            cfg,
            handler.first_step(cfg, EvmApiMethod::SetTrieSlots, data),
            stored_replies(before),
            reply,
        );
        let at: int = 8 + 64 * before.len() as int;
        assert(data.skip(at).len() >= 64);
        assert(data.skip(at).skip(64) =~= data.skip(at + 64));
    } else {
        assert(stored_replies(stores) =~= Seq::empty());
    }
}

/// Slots are written in the order in which they are encoded: once the host has stored the first
/// slots, and their price is within the gas, the handler has it write the next.
pub proof fn law_slots_are_written_in_order(
    handler: StylusHandler,
    cfg: Cfg,
    data: Seq<u8>,
    stores: Seq<StateLoad<gas::SStoreResult>>,
)
    requires
        !handler.is_static,
        data.len() >= 8,
        stores.len() < slot_count(data),
        stores_price(cfg, stores) <= u64_at(data, 0),
    ensures
        run_request(handler, cfg, EvmApiMethod::SetTrieSlots, data, stored_replies(stores)) matches Step::Act(
            Action::Sstore { address, key, value },
            _,
        ) && {
            &&& address == handler.address
            &&& key == word_at(data, 8 + 64 * stores.len() as int)
            &&& value == word_at(data, 40 + 64 * stores.len() as int)
        },
{
    lemma_slots_run(handler, cfg, data, stores);
    let at: int = 8 + 64 * stores.len() as int;
    let slots = data.skip(at);
    assert(word_at(slots, 0) =~= word_at(data, at));
    assert(word_at(slots, 32) =~= word_at(data, at + 32));
}

/// A slot write succeeds when the host stores every slot and the price of all of them is within
/// the gas offered; the answer then holds the gas that is left.
pub proof fn law_slots_success(
    handler: StylusHandler,
    cfg: Cfg,
    data: Seq<u8>,
    stores: Seq<StateLoad<gas::SStoreResult>>,
)
    requires
        !handler.is_static,
        data.len() >= 8,
        (data.len() - 8) % 64 == 0,
        stores.len() == slot_count(data),
        stores_price(cfg, stores) <= u64_at(data, 0),
    ensures
        run_request(handler, cfg, EvmApiMethod::SetTrieSlots, data, stored_replies(stores))
            == Step::<_, Seq<Word>>::Done(
            status_response(Status::Success, (u64_at(data, 0) - stores_price(cfg, stores)) as u64),
        ),
{
    lemma_slots_run(handler, cfg, data, stores);
}

/// A slot write runs out of gas at the first stored slot whose price brings the sum above the gas
/// offered, and no later slot is written.
pub proof fn law_slots_out_of_gas(
    handler: StylusHandler,
    cfg: Cfg,
    data: Seq<u8>,
    stores: Seq<StateLoad<gas::SStoreResult>>,
    later: Seq<Reply<Seq<u8>>>,
)
    requires
        !handler.is_static,
        data.len() >= 8,
        0 < stores.len() <= slot_count(data),
        stores_price(cfg, stores.drop_last()) <= u64_at(data, 0),
        stores_price(cfg, stores) > u64_at(data, 0),
    ensures
        run_request(handler, cfg, EvmApiMethod::SetTrieSlots, data, stored_replies(stores) + later)
            == Step::<_, Seq<Word>>::Done(status_response(Status::OutOfGas, u64_at(data, 0))),
{
    let before = stores.drop_last();
    lemma_slots_run(handler, cfg, data, before);
    let reply = Reply::<Seq<u8>>::Sstore(Some(stores.last()));
    assert(stored_replies(stores) =~= stored_replies(before).push(reply));
    let first = handler.first_step(cfg, EvmApiMethod::SetTrieSlots, data);
    lemma_run_push(handler, cfg, first, stored_replies(before), reply);
    lemma_done_run(handler, cfg, first, stored_replies(stores), later);
}

/// A slot write fails as soon as the host cannot store a slot, and no later slot is written.
pub proof fn law_slots_failure(
    handler: StylusHandler,
    cfg: Cfg,
    data: Seq<u8>,
    stores: Seq<StateLoad<gas::SStoreResult>>,
    later: Seq<Reply<Seq<u8>>>,
)
    requires
        !handler.is_static,
        data.len() >= 8,
        stores.len() < slot_count(data),
        stores_price(cfg, stores) <= u64_at(data, 0),
    ensures
        run_request(
            handler,
            cfg,
            EvmApiMethod::SetTrieSlots,
            data,
            stored_replies(stores).push(Reply::Sstore(None)) + later,
        ) == Step::<_, Seq<Word>>::Done(status_response(Status::Failure, u64_at(data, 0))),
{
    lemma_slots_run(handler, cfg, data, stores);
    let first = handler.first_step(cfg, EvmApiMethod::SetTrieSlots, data);
    let reply = Reply::<Seq<u8>>::Sstore(None);
    lemma_run_push(handler, cfg, first, stored_replies(stores), reply);
    lemma_done_run(handler, cfg, first, stored_replies(stores).push(reply), later);
}

/// Replies after the answer change nothing.
proof fn lemma_done_run(
    handler: StylusHandler,
    cfg: Cfg,
    step: StepView,
    replies: Seq<Reply<Seq<u8>>>,
    later: Seq<Reply<Seq<u8>>>,
)
    requires
        run(handler, cfg, step, replies) is Done,
    ensures
        run(handler, cfg, step, replies + later) == run(handler, cfg, step, replies),
    decreases replies.len(),
{
    if let Step::Act(_, pending) = step {
        assert((replies + later).drop_first() =~= replies.drop_first() + later);
        lemma_done_run(
            handler,
            cfg,
            handler.next_step(cfg, pending, replies.first()),
            replies.drop_first(),
            later,
        );
    }
}

/// How many actions of the host a request can still need.
pub open spec fn actions_left(step: StepView) -> nat {
    match step {
        Step::Done(_) => 0,
        Step::Act(_, Pending::Sstore { rest, .. }) => 1 + rest.len() / 64,
        Step::Act(_, Pending::LoadAccount(_)) => 2,
        Step::Act(_, _) => 1,
    }
}

/// Every request is answered: each reply that the handler takes leaves fewer actions to perform,
/// so after as many as the first step can need the answer is there.
pub proof fn law_requests_are_answered(
    handler: StylusHandler,
    cfg: Cfg,
    step: StepView,
    replies: Seq<Reply<Seq<u8>>>,
)
    requires
        takes_all(handler, cfg, step, replies),
        replies.len() >= actions_left(step),
    ensures
        run(handler, cfg, step, replies) is Done,
    decreases replies.len(),
{
    if let Step::Act(_, pending) = step {
        let next = handler.next_step(cfg, pending, replies.first());
        assert(actions_left(next) < actions_left(step));
        law_requests_are_answered(handler, cfg, next, replies.drop_first());
    }
}

/// Whether `result` is empty, a status byte, a one with an address, or a word.
pub open spec fn is_shaped(result: Seq<u8>) -> bool {
    ||| result.len() == 0
    ||| result.len() == 1 && result[0] <= 3
    ||| result.len() == 21 && result[0] == 1
    ||| result.len() == 32
}

/// The result in an answer is empty, a status byte, a one with an address, or a word.
pub proof fn law_result_shapes(
    handler: StylusHandler,
    cfg: Cfg,
    method: EvmApiMethod,
    data: Seq<u8>,
    replies: Seq<Reply<Seq<u8>>>,
)
    ensures
        run_request(handler, cfg, method, data, replies) matches Step::Done(response) ==> is_shaped(
            response.result,
        ),
{
    lemma_run_keeps(
        handler,
        cfg,
        |step: StepView| step matches Step::Done(response) ==> is_shaped(response.result),
        handler.first_step(cfg, method, data),
        replies,
    );
}

/// The encoding of a call request.
pub open spec fn encoded_call(
    address: Address,
    value: Word,
    gas_left: u64,
    gas_limit: u64,
    calldata: Seq<u8>,
) -> Seq<u8> {
    address@ + value@ + be_bytes(gas_left as nat, 8) + be_bytes(gas_limit as nat, 8) + calldata
}

/// Eight bytes that spell a `u64` read as it, wherever they stand.
proof fn lemma_u64_at(data: Seq<u8>, at: int, value: u64)
    requires
        0 <= at,
        at + 8 <= data.len(),
        data.subrange(at, at + 8) == be_bytes(value as nat, 8),
    ensures
        u64_at(data, at) == value,
{
    lemma_be_range_machine();
    law_be_bytes_read_back(value as nat, 8);
}

/// A call request is read back as it was encoded.
pub proof fn law_call_read_back(
    method: EvmApiMethod,
    address: Address,
    value: Word,
    gas_left: u64,
    gas_limit: u64,
    calldata: Seq<u8>,
)
    ensures
        ({
            let request = decoded_call(
                method,
                encoded_call(address, value, gas_left, gas_limit, calldata),
            );
            &&& request.address == address
            &&& request.value == value
            &&& request.gas_left == gas_left
            &&& request.gas_limit == gas_limit
            &&& request.calldata == calldata
        }),
{
    lemma_be_range_machine();
    law_be_bytes_read_back(gas_left as nat, 8);
    law_be_bytes_read_back(gas_limit as nat, 8);
    let data = encoded_call(address, value, gas_left, gas_limit, calldata);
    let gases = be_bytes(gas_left as nat, 8) + be_bytes(gas_limit as nat, 8);
    assert(data =~= address@ + (value@ + gases + calldata));
    lemma_address_at_front(address, value@ + gases + calldata);
    assert(data =~= address@ + value@ + (gases + calldata));
    law_word_read_back(address@, value, gases + calldata);
    assert(data.subrange(52, 60) =~= be_bytes(gas_left as nat, 8));
    assert(data.subrange(60, 68) =~= be_bytes(gas_limit as nat, 8));
    lemma_u64_at(data, 52, gas_left);
    lemma_u64_at(data, 60, gas_limit);
    assert(data.skip(68) =~= calldata);
}

/// The encoding of a creation; one with a salt carries it between the value and the init code.
pub open spec fn encoded_create(gas: u64, value: Word, salt: Option<Word>, code: Seq<u8>) -> Seq<u8> {
    be_bytes(gas as nat, 8) + value@ + (match salt {
        Some(salt) => salt@,
        None => Seq::empty(),
    }) + code
}

/// A creation is read back as it was encoded.
pub proof fn law_create_read_back(gas: u64, value: Word, salt: Option<Word>, code: Seq<u8>)
    ensures
        ({
            let data = encoded_create(gas, value, salt, code);
            &&& u64_at(data, 0) == gas
            &&& word_at(data, 8) == value
            &&& salt matches Some(salt) ==> word_at(data, 40) == salt
            &&& init_code(salt is Some, data) == code
        }),
{
    lemma_be_range_machine();
    law_be_bytes_read_back(gas as nat, 8);
    let data = encoded_create(gas, value, salt, code);
    assert(data.subrange(0, 8) =~= be_bytes(gas as nat, 8));
    lemma_u64_at(data, 0, gas);
    let offer = be_bytes(gas as nat, 8);
    match salt {
        Some(salt) => {
            assert(data =~= offer + value@ + (salt@ + code));
            law_word_read_back(offer, value, salt@ + code);
            law_word_read_back(offer + value@, salt, code);
        },
        None => {
            assert(data =~= offer + value@ + code);
            law_word_read_back(offer, value, code);
        },
    }
    assert(init_code(salt is Some, data) =~= code);
}

/// The bytes of a list of words, one after the other.
pub open spec fn joined_words(words: Seq<Word>) -> Seq<u8> {
    Seq::new(32 * words.len(), |i: int| words[i / 32][i % 32])
}

/// The encoding of a log entry.
pub open spec fn encoded_log(topics: Seq<Word>, data: Seq<u8>) -> Seq<u8> {
    be_bytes(topics.len(), 4) + joined_words(topics) + data
}

/// A log entry is read back as it was encoded.
#[verifier::spinoff_prover]
pub proof fn law_log_read_back(address: Address, topics: Seq<Word>, data: Seq<u8>)
    requires
        topics.len() <= u32::MAX,
    ensures
        decoded_log(address, encoded_log(topics, data)) == (Log { address, topics, data }),
{
    lemma_be_range_machine();
    law_be_bytes_read_back(topics.len(), 4);
    let whole = encoded_log(topics, data);
    assert(whole.take(4) =~= be_bytes(topics.len(), 4));
    let log = decoded_log(address, whole);
    assert forall|i: int| 0 <= i < topics.len() implies log.topics[i] == topics[i] by {
        let at: int = 4 + 32 * i;
        assert forall|k: int| 0 <= k < 32 implies whole[at + k] == topics[i][k] by {
            assert((32 * i + k) / 32 == i && (32 * i + k) % 32 == k);
            assert(whole[at + k] == joined_words(topics)[32 * i + k]);
        }
        assert(whole =~= whole.take(at) + topics[i]@ + whole.skip(at + 32));
        law_word_read_back(whole.take(at), topics[i], whole.skip(at + 32));
    }
    assert(log.topics =~= topics);
    assert(log.data =~= data);
}

/// Whether an action, where it reads or writes storage, logs or opens a frame, does so for `address`.
pub open spec fn acts_for(action: Action<Seq<u8>, Seq<Word>>, address: Address) -> bool {
    match action {
        Action::Sload { address: owner, .. } => owner == address,
        Action::Sstore { address: owner, .. } => owner == address,
        Action::Tload { address: owner, .. } => owner == address,
        Action::Tstore { address: owner, .. } => owner == address,
        Action::EmitLog(log) => log.address == address,
        Action::Call(inputs) => inputs.caller == address,
        Action::Create(inputs) => inputs.caller == address,
        _ => true,
    }
}

/// A handler reads and writes no storage but that of its own account, logs in its name only, and
/// opens frames with it as the caller.
pub proof fn law_handler_acts_for_own_account(
    handler: StylusHandler,
    cfg: Cfg,
    method: EvmApiMethod,
    data: Seq<u8>,
    replies: Seq<Reply<Seq<u8>>>,
)
    ensures
        run_request(handler, cfg, method, data, replies) matches Step::Act(action, _) ==> acts_for(
            action,
            handler.address,
        ),
{
    lemma_run_keeps(
        handler,
        cfg,
        |step: StepView| step matches Step::Act(action, _) ==> acts_for(action, handler.address),
        handler.first_step(cfg, method, data),
        replies,
    );
}

/// The handler for a program that runs in a call frame.
pub open spec fn callee_handler(inputs: CallInputs<Seq<u8>>) -> StylusHandler {
    StylusHandler { address: inputs.target_address, is_static: inputs.is_static }
}

/// A static call protects the state: whatever the callee requests, it has the host write, create
/// and transfer nothing.
pub proof fn law_static_call_protects_state(
    handler: StylusHandler,
    cfg: Cfg,
    data: Seq<u8>,
    replies: Seq<Reply<Seq<u8>>>,
    callee_method: EvmApiMethod,
    callee_data: Seq<u8>,
    callee_replies: Seq<Reply<Seq<u8>>>,
)
    requires
        handler.admits(cfg, EvmApiMethod::StaticCall, data),
    ensures
        run_request(handler, cfg, EvmApiMethod::StaticCall, data, replies) matches Step::Act(
            Action::Call(inputs),
            _,
        ) ==> (run_request(
            callee_handler(inputs),
            cfg,
            callee_method,
            callee_data,
            callee_replies,
        ) matches Step::Act(action, _) ==> !is_guarded(action)),
{
    law_call_frame(handler, cfg, EvmApiMethod::StaticCall, data, replies);
    if let Step::Act(Action::Call(inputs), _) = run_request(
        handler,
        cfg,
        EvmApiMethod::StaticCall,
        data,
        replies,
    ) {
        law_static_handler_is_harmless(
            callee_handler(inputs),
            cfg,
            callee_method,
            callee_data,
            callee_replies,
        );
    }
}

/// A delegate call works on the storage of the account that makes it: whatever the callee
/// requests, it reads and writes the storage of the caller.
pub proof fn law_delegate_call_keeps_storage(
    handler: StylusHandler,
    cfg: Cfg,
    data: Seq<u8>,
    replies: Seq<Reply<Seq<u8>>>,
    callee_method: EvmApiMethod,
    callee_data: Seq<u8>,
    callee_replies: Seq<Reply<Seq<u8>>>,
)
    requires
        handler.admits(cfg, EvmApiMethod::DelegateCall, data),
    ensures
        run_request(handler, cfg, EvmApiMethod::DelegateCall, data, replies) matches Step::Act(
            Action::Call(inputs),
            _,
        ) ==> (run_request(
            callee_handler(inputs),
            cfg,
            callee_method,
            callee_data,
            callee_replies,
        ) matches Step::Act(action, _) ==> acts_for(action, handler.address)),
{
    law_call_frame(handler, cfg, EvmApiMethod::DelegateCall, data, replies);
    if let Step::Act(Action::Call(inputs), _) = run_request(
        handler,
        cfg,
        EvmApiMethod::DelegateCall,
        data,
        replies,
    ) {
        law_handler_acts_for_own_account(
            callee_handler(inputs),
            cfg,
            callee_method,
            callee_data,
            callee_replies,
        );
    }
}

/// A storage read is answered with the 32 bytes that the host loaded, at the price of the read.
pub proof fn law_storage_read_returns_word(
    handler: StylusHandler,
    cfg: Cfg,
    slot: Word,
    load: StateLoad<Word>,
)
    ensures
        run_request(handler, cfg, EvmApiMethod::GetBytes32, slot@, seq![]) == Step::Act(
            Action::<Seq<u8>, Seq<Word>>::Sload { address: handler.address, slot },
            Pending::Sload,
        ),
        run_request(handler, cfg, EvmApiMethod::GetBytes32, slot@, seq![Reply::Sload(Some(load))])
            == Step::<_, Seq<Word>>::Done(
            Response {
                result: load.data@,
                data: seq![],
                gas: gas::sload_price(cfg.spec.number(), load.is_cold),
            },
        ),
{
    lemma_word_at_front(slot, seq![]);
    assert(slot@ + seq![] =~= slot@);
    let first = handler.first_step(cfg, EvmApiMethod::GetBytes32, slot@);
    lemma_replies(handler, cfg, first, Reply::Sload(Some(load)), Reply::Tstore);
}

/// The storage of all accounts, by account and slot.
pub type Storage = Map<(Address, Word), Word>;

/// The storage as the handler's own write leaves it: a slot that the host reports as stored holds
/// the value to write. What a frame writes while it runs is that of the handler of its program, and
/// is not counted here.
pub open spec fn with_own_write(
    storage: Storage,
    action: Action<Seq<u8>, Seq<Word>>,
    reply: Reply<Seq<u8>>,
) -> Storage {
    match (action, reply) {
        (Action::Sstore { address, key, value }, Reply::Sstore(Some(_))) => storage.insert(
            (address, key),
            value,
        ),
        _ => storage,
    }
}

/// The storage as the handler's own writes leave it, once the host has given `replies` in turn,
/// starting from `step`. What frames write while they run is not counted.
pub open spec fn storage_as_written(
    handler: StylusHandler,
    cfg: Cfg,
    step: StepView,
    replies: Seq<Reply<Seq<u8>>>,
    storage: Storage,
) -> Storage
    decreases replies.len(),
{
    match step {
        Step::Done(_) => storage,
        Step::Act(action, pending) => if replies.len() == 0 {
            storage
        } else {
            storage_as_written(
                handler,
                cfg,
                handler.next_step(cfg, pending, replies.first()),
                replies.drop_first(),
                with_own_write(storage, action, replies.first()),
            )
        },
    }
}

/// The storage once the first `count` slots of a slot write are stored for `address`.
pub open spec fn with_slots(storage: Storage, address: Address, data: Seq<u8>, count: nat) -> Storage
    decreases count,
{
    if count == 0 {
        storage
    } else {
        with_slots(storage, address, data, (count - 1) as nat).insert(
            (address, word_at(data, 64 * count - 56)),
            word_at(data, 64 * count - 24),
        )
    }
}

/// One more reply carries the storage one step further.
proof fn lemma_storage_push(
    handler: StylusHandler,
    cfg: Cfg,
    step: StepView,
    replies: Seq<Reply<Seq<u8>>>,
    reply: Reply<Seq<u8>>,
    storage: Storage,
)
    ensures
        ({
            let before = storage_as_written(handler, cfg, step, replies, storage);
            storage_as_written(handler, cfg, step, replies.push(reply), storage) == match run(
                handler,
                cfg,
                step,
                replies,
            ) {
                Step::Done(_) => before,
                Step::Act(action, _) => with_own_write(before, action, reply),
            }
        }),
    decreases replies.len(),
{
    let longer = replies.push(reply);
    if let Step::Act(action, pending) = step {
        let next = handler.next_step(cfg, pending, longer.first());
        let stored = with_own_write(storage, action, longer.first());
        if replies.len() == 0 {
            assert(longer.drop_first() =~= Seq::empty());
            assert(storage_as_written(handler, cfg, next, longer.drop_first(), stored) == stored);
        } else {
            assert(longer.drop_first() =~= replies.drop_first().push(reply));
            lemma_storage_push(handler, cfg, next, replies.drop_first(), reply, stored);
        }
    }
}

/// A slot write leaves in the storage of the handler's own account what it encodes, slot by slot, as
/// far as the host stores it, and writes nothing else. The slot whose price brings the sum above the
/// gas is stored too, and is the last; a slot that the host cannot store is not.
pub proof fn law_slots_are_stored(
    handler: StylusHandler,
    cfg: Cfg,
    data: Seq<u8>,
    stores: Seq<StateLoad<gas::SStoreResult>>,
    later: Seq<Reply<Seq<u8>>>,
    storage: Storage,
)
    requires
        !handler.is_static,
        data.len() >= 8,
        stores.len() <= slot_count(data),
        stores.len() > 0 ==> stores_price(cfg, stores.drop_last()) <= u64_at(data, 0),
    ensures
        ({
            let first = handler.first_step(cfg, EvmApiMethod::SetTrieSlots, data);
            let replies = stored_replies(stores);
            let written = with_slots(storage, handler.address, data, stores.len());
            &&& storage_as_written(handler, cfg, first, replies, storage) == written
            &&& stores_price(cfg, stores) > u64_at(data, 0) ==> storage_as_written(
                handler,
                cfg,
                first,
                replies + later,
                storage,
            ) == written
            &&& stores.len() < slot_count(data) ==> storage_as_written(
                handler,
                cfg,
                first,
                replies.push(Reply::Sstore(None)) + later,
                storage,
            ) == written
        }),
{
    let first = handler.first_step(cfg, EvmApiMethod::SetTrieSlots, data);
    lemma_slots_are_stored(handler, cfg, data, stores, storage);
    if stores_price(cfg, stores) > u64_at(data, 0) {
        law_slots_out_of_gas(handler, cfg, data, stores, Seq::empty());
        assert(stored_replies(stores) + Seq::empty() =~= stored_replies(stores));
        lemma_storage_done(handler, cfg, first, stored_replies(stores), later, storage);
    }
    if stores.len() < slot_count(data) {
        let failed = stored_replies(stores).push(Reply::Sstore(None));
        lemma_storage_push(handler, cfg, first, stored_replies(stores), Reply::Sstore(None), storage);
        if stores_price(cfg, stores) > u64_at(data, 0) {
            lemma_done_run(handler, cfg, first, stored_replies(stores), seq![Reply::Sstore(None)]);
            assert(stored_replies(stores) + seq![Reply::Sstore(None)] =~= failed);
        } else {
            law_slots_failure(handler, cfg, data, stores, Seq::empty());
            assert(failed + Seq::empty() =~= failed);
        }
        lemma_storage_done(handler, cfg, first, failed, later, storage);
    }
}

/// Where the storage stands once the host has stored the first slots of a write.
proof fn lemma_slots_are_stored(
    handler: StylusHandler,
    cfg: Cfg,
    data: Seq<u8>,
    stores: Seq<StateLoad<gas::SStoreResult>>,
    storage: Storage,
)
    requires
        !handler.is_static,
        data.len() >= 8,
        stores.len() <= slot_count(data),
        stores.len() > 0 ==> stores_price(cfg, stores.drop_last()) <= u64_at(data, 0),
    ensures
        storage_as_written(
            handler,
            cfg,
            handler.first_step(cfg, EvmApiMethod::SetTrieSlots, data),
            stored_replies(stores),
            storage,
        ) == with_slots(storage, handler.address, data, stores.len()),
    decreases stores.len(),
{
    let first = handler.first_step(cfg, EvmApiMethod::SetTrieSlots, data);
    if stores.len() > 0 {
        let before = stores.drop_last();
        if before.len() > 0 {
            assert(before.take(before.len() as int) =~= before);
            assert(before.take(before.len() - 1) =~= before.drop_last());
            lemma_stores_price_monotonic(cfg, before, before.len() - 1, before.len() as int);
        }
        lemma_slots_are_stored(handler, cfg, data, before, storage);
        law_slots_are_written_in_order(handler, cfg, data, before);
        let reply = Reply::<Seq<u8>>::Sstore(Some(stores.last()));
        assert(stored_replies(stores) =~= stored_replies(before).push(reply));
        lemma_storage_push(handler, cfg, first, stored_replies(before), reply, storage);
    } else {
        assert(stored_replies(stores) =~= Seq::empty());
    }
}

/// Replies after the answer leave the storage as it is.
proof fn lemma_storage_done(
    handler: StylusHandler,
    cfg: Cfg,
    step: StepView,
    replies: Seq<Reply<Seq<u8>>>,
    later: Seq<Reply<Seq<u8>>>,
    storage: Storage,
)
    requires
        run(handler, cfg, step, replies) is Done,
    ensures
        storage_as_written(handler, cfg, step, replies + later, storage) == storage_as_written(
            handler,
            cfg,
            step,
            replies,
            storage,
        ),
    decreases replies.len(),
{
    if let Step::Act(action, pending) = step {
        assert((replies + later).drop_first() =~= replies.drop_first() + later);
        lemma_storage_done(
            handler,
            cfg,
            handler.next_step(cfg, pending, replies.first()),
            replies.drop_first(),
            later,
            with_own_write(storage, action, replies.first()),
        );
    }
}

/// A slot holds the last value written to it.
proof fn lemma_last_write_stays(
    storage: Storage,
    address: Address,
    data: Seq<u8>,
    count: nat,
    slot: int,
)
    requires
        0 <= slot < count,
        forall|later: int|
            slot < later < count ==> #[trigger] word_at(data, 8 + 64 * later) != word_at(
                data,
                8 + 64 * slot,
            ),
    ensures
        with_slots(storage, address, data, count)[(address, word_at(data, 8 + 64 * slot))]
            == word_at(data, 40 + 64 * slot),
    decreases count,
{
    if slot < count - 1 {
        lemma_last_write_stays(storage, address, data, (count - 1) as nat, slot);
        assert(word_at(data, 8 + 64 * (count - 1)) != word_at(data, 8 + 64 * slot));
    }
}

/// A read gives back what was written: once the host has stored slots of a write, a read of one of
/// them for the same account is answered with the last value stored there, provided that the host
/// loads what is stored.
pub proof fn law_read_after_write(
    writer: StylusHandler,
    reader: StylusHandler,
    cfg: Cfg,
    data: Seq<u8>,
    stores: Seq<StateLoad<gas::SStoreResult>>,
    storage: Storage,
    slot: int,
    load: StateLoad<Word>,
)
    requires
        !writer.is_static,
        reader.address == writer.address,
        data.len() >= 8,
        stores.len() <= slot_count(data),
        stores.len() > 0 ==> stores_price(cfg, stores.drop_last()) <= u64_at(data, 0),
        0 <= slot < stores.len(),
        forall|later: int|
            slot < later < stores.len() ==> #[trigger] word_at(data, 8 + 64 * later) != word_at(
                data,
                8 + 64 * slot,
            ),
        load.data == storage_as_written(
            writer,
            cfg,
            writer.first_step(cfg, EvmApiMethod::SetTrieSlots, data),
            stored_replies(stores),
            storage,
        )[(reader.address, word_at(data, 8 + 64 * slot))],
    ensures
        run_request(
            reader,
            cfg,
            EvmApiMethod::GetBytes32,
            word_at(data, 8 + 64 * slot)@,
            seq![Reply::Sload(Some(load))],
        ) matches Step::Done(response) && response.result == word_at(data, 40 + 64 * slot)@,
{
    lemma_slots_are_stored(writer, cfg, data, stores, storage);
    lemma_last_write_stays(storage, writer.address, data, stores.len(), slot);
    law_storage_read_returns_word(reader, cfg, word_at(data, 8 + 64 * slot), load);
}

/// Transient storage is read back as it was written: a transient write has the host store the value
/// for the handler's own account and succeeds, a transient read for the same account has it load the
/// same slot and is answered with the word loaded, and neither costs gas. So the answer is the value
/// written where the host loads what it stored.
pub proof fn law_transient_read_after_write(
    writer: StylusHandler,
    reader: StylusHandler,
    cfg: Cfg,
    key: Word,
    value: Word,
    loaded: Word,
)
    requires
        !writer.is_static,
        reader.address == writer.address,
    ensures
        run_request(writer, cfg, EvmApiMethod::SetTransientBytes32, key@ + value@, seq![]) == Step::Act(
            Action::<Seq<u8>, Seq<Word>>::Tstore { address: writer.address, key, value },
            Pending::Tstore,
        ),
        run_request(writer, cfg, EvmApiMethod::SetTransientBytes32, key@ + value@, seq![Reply::Tstore])
            == Step::<_, Seq<Word>>::Done(status_response(Status::Success, 0)),
        run_request(reader, cfg, EvmApiMethod::GetTransientBytes32, key@, seq![]) == Step::Act(
            Action::<Seq<u8>, Seq<Word>>::Tload { address: writer.address, slot: key },
            Pending::Tload,
        ),
        run_request(reader, cfg, EvmApiMethod::GetTransientBytes32, key@, seq![Reply::Tload(loaded)])
            == Step::<_, Seq<Word>>::Done(Response { result: loaded@, data: seq![], gas: 0 }),
{
    lemma_word_at_front(key, value@);
    law_word_read_back(key@, value, seq![]);
    assert(key@ + value@ + seq![] =~= key@ + value@);
    let write = writer.first_step(cfg, EvmApiMethod::SetTransientBytes32, key@ + value@);
    lemma_replies(writer, cfg, write, Reply::Tstore, Reply::Tstore);
    lemma_word_at_front(key, seq![]);
    assert(key@ + seq![] =~= key@);
    let read = reader.first_step(cfg, EvmApiMethod::GetTransientBytes32, key@);
    lemma_replies(reader, cfg, read, Reply::Tload(loaded), Reply::Tstore);
}

/// From a harmless step on, a static handler writes nothing.
proof fn lemma_static_storage(
    handler: StylusHandler,
    cfg: Cfg,
    step: StepView,
    replies: Seq<Reply<Seq<u8>>>,
    storage: Storage,
)
    requires
        handler.is_static,
        is_harmless(step),
    ensures
        storage_as_written(handler, cfg, step, replies, storage) == storage,
    decreases replies.len(),
{
    if let Step::Act(_, pending) = step {
        if replies.len() > 0 {
            lemma_static_storage(
                handler,
                cfg,
                handler.next_step(cfg, pending, replies.first()),
                replies.drop_first(),
                storage,
            );
        }
    }
}

/// Whatever is requested of a static handler, and whatever the host replies, its own writes leave
/// storage as it is. The frames that it opens are static in turn, as
/// [`law_static_handler_is_harmless`] says, so the same holds of the handlers of their programs.
pub proof fn law_static_handler_writes_no_storage(
    handler: StylusHandler,
    cfg: Cfg,
    method: EvmApiMethod,
    data: Seq<u8>,
    replies: Seq<Reply<Seq<u8>>>,
    storage: Storage,
)
    requires
        handler.is_static,
    ensures
        storage_as_written(handler, cfg, handler.first_step(cfg, method, data), replies, storage) == storage,
{
    lemma_static_storage(handler, cfg, handler.first_step(cfg, method, data), replies, storage);
}

/// A call is answered with success and with the output of its frame, however the frame ended. The
/// gas in the answer is the gas of the frame and the price of the call, less what the frame left. If
/// the host ran anything but a call, the answer is empty and nothing is taken off the gas.
pub proof fn law_call_returns_output(
    handler: StylusHandler,
    cfg: Cfg,
    method: EvmApiMethod,
    data: Seq<u8>,
    load: StateLoad<gas::AccountLoad>,
    frame: FrameResult<Seq<u8>>,
)
    requires
        method == EvmApiMethod::ContractCall || method == EvmApiMethod::DelegateCall || method
            == EvmApiMethod::StaticCall,
        !handler.is_static || is_zero_word(word_at(data, 20)),
        frame_and_price(cfg, data, load) <= u64::MAX,
        frame matches FrameResult::Call(outcome) ==> outcome.gas.remaining <= frame_and_price(
            cfg,
            data,
            load,
        ),
    ensures
        run_request(
            handler,
            cfg,
            method,
            data,
            seq![Reply::LoadAccount(Some(load)), Reply::Frame(frame)],
        ) matches Step::Done(response) && match frame {
            FrameResult::Call(outcome) => {
                &&& response.result == seq![Status::Success.code()]
                &&& response.data == outcome.output
                &&& response.gas == frame_and_price(cfg, data, load) - outcome.gas.remaining
            },
            _ => {
                &&& response.result == Seq::<u8>::empty()
                &&& response.data == Seq::<u8>::empty()
                &&& response.gas == frame_and_price(cfg, data, load)
            },
        },
{
    let first = handler.first_step(cfg, method, data);
    assert(first == handler.call_step(method, data));
    lemma_replies(handler, cfg, first, Reply::LoadAccount(Some(load)), Reply::Frame(frame));
}

/// The gas of the frame of a call, and the price of the call.
pub open spec fn frame_and_price(cfg: Cfg, data: Seq<u8>, load: StateLoad<gas::AccountLoad>) -> int {
    call_gas_limit(cfg.spec, u64_at(data, 52), u64_at(data, 60)) + gas::call_price(
        cfg.spec.number(),
        !is_zero_word(word_at(data, 20)),
        load.data,
        load.is_cold,
    )
}

/// The handler takes every finished frame of a call that left no more gas than it was given, as long
/// as the gas of the frame and the price of the call fit in a `u64` together. From the fork on that
/// holds gas back from callees, they always do.
pub proof fn law_call_frames_are_taken(
    handler: StylusHandler,
    cfg: Cfg,
    request: CallRequest<Seq<u8>>,
    load: StateLoad<gas::AccountLoad>,
    frame: FrameResult<Seq<u8>>,
)
    requires
        cfg.spec.enables(SpecId::TANGERINE) || request.gas_limit + gas::call_price(
            cfg.spec.number(),
            !is_zero_word(request.value),
            load.data,
            load.is_cold,
        ) <= u64::MAX,
        frame_outcome(frame).gas.remaining <= handler.call_inputs(cfg, request).gas_limit,
    ensures
        handler.loaded_step(cfg, request, Some(load)) matches Step::Act(_, pending) && handler.accepts(
            cfg,
            pending,
            Reply::Frame(frame),
        ),
{
}

/// The handler takes every finished frame of a creation that was given no more gas than it asked for
/// and left no more than it was given.
pub proof fn law_create_frames_are_taken(
    handler: StylusHandler,
    cfg: Cfg,
    salted: bool,
    data: Seq<u8>,
    frame: FrameResult<Seq<u8>>,
)
    requires
        handler.create_step(cfg, salted, data) matches Step::Act(Action::Create(inputs), _)
            && frame_outcome(frame).gas.limit <= inputs.gas_limit,
        frame_outcome(frame).gas.remaining <= frame_outcome(frame).gas.limit,
    ensures
        handler.create_step(cfg, salted, data) matches Step::Act(_, pending) && handler.accepts(
            cfg,
            pending,
            Reply::Frame(frame),
        ),
{
}

/// A list of stores costs at most 22100 for each.
proof fn lemma_stores_price_bound(cfg: Cfg, stores: Seq<StateLoad<gas::SStoreResult>>)
    ensures
        0 <= stores_price(cfg, stores) <= 22100 * stores.len(),
    decreases stores.len(),
{
    if stores.len() > 0 {
        lemma_stores_price_bound(cfg, stores.drop_last());
    }
}

/// As long as the slots of a write are complete, and so few that their prices cannot exceed a `u64`
/// together, the handler takes every report of a stored slot.
pub proof fn law_stores_are_taken(
    handler: StylusHandler,
    cfg: Cfg,
    data: Seq<u8>,
    stores: Seq<StateLoad<gas::SStoreResult>>,
    stored: Option<StateLoad<gas::SStoreResult>>,
)
    requires
        !handler.is_static,
        data.len() >= 8,
        (data.len() - 8) % 64 == 0,
        22100 * slot_count(data) <= u64::MAX,
        stores.len() < slot_count(data),
        stores_price(cfg, stores) <= u64_at(data, 0),
    ensures
        run_request(handler, cfg, EvmApiMethod::SetTrieSlots, data, stored_replies(stores)) matches Step::Act(
            _,
            pending,
        ) && handler.accepts(cfg, pending, Reply::Sstore(stored)),
{
    lemma_slots_run(handler, cfg, data, stores);
    lemma_stores_price_bound(cfg, stores);
    let slots = data.skip(8 + 64 * stores.len() as int);
    assert(slots.len() >= 64);
    assert(slots.skip(64).len() == slots.len() - 64);
}

/// A call whose callee the host cannot load fails, and its gas is handed back.
pub proof fn law_call_of_unloadable_fails(
    handler: StylusHandler,
    cfg: Cfg,
    method: EvmApiMethod,
    data: Seq<u8>,
)
    requires
        method == EvmApiMethod::ContractCall || method == EvmApiMethod::DelegateCall || method
            == EvmApiMethod::StaticCall,
        !handler.is_static || is_zero_word(word_at(data, 20)),
    ensures
        run_request(handler, cfg, method, data, seq![Reply::LoadAccount(None)]) == Step::<
            _,
            Seq<Word>,
        >::Done(status_response(Status::Failure, u64_at(data, 52))),
{
    let first = handler.first_step(cfg, method, data);
    assert(first == handler.call_step(method, data));
    lemma_replies(handler, cfg, first, Reply::LoadAccount(None), Reply::Tstore);
}

/// Whether a creation gets as far as its frame: it is allowed, its init code is not too long, and
/// its price is within the gas offered.
pub open spec fn opens_create_frame(handler: StylusHandler, cfg: Cfg, salted: bool, data: Seq<u8>) -> bool {
    let len = init_code(salted, data).len();
    &&& !handler.is_static
    &&& !salted || cfg.spec.enables(SpecId::PETERSBURG)
    &&& !init_code_too_long(cfg, len as int)
    &&& create_price(cfg, salted, len as usize) <= u64_at(data, 0)
}

/// A creation whose frame returns within the gas is answered with the address of the new contract
/// and the output of the frame; one whose frame reverts is answered with the zero address and the
/// output; any other ending, and anything but a creation that the host ran, is a failure that returns
/// nothing and hands the gas back. Where the frame used more than is left, the creation is out of gas.
pub proof fn law_create_answers(
    handler: StylusHandler,
    cfg: Cfg,
    salted: bool,
    data: Seq<u8>,
    frame: FrameResult<Seq<u8>>,
)
    requires
        opens_create_frame(handler, cfg, salted, data),
        frame_outcome(frame).gas.remaining <= frame_outcome(frame).gas.limit,
    ensures
        ({
            let method = if salted { EvmApiMethod::Create2 } else { EvmApiMethod::Create1 };
            let offered = u64_at(data, 0);
            let total = create_price(cfg, salted, init_code(salted, data).len() as usize)
                + frame_gas_spent(frame_outcome(frame).gas);
            &&& run_request(handler, cfg, method, data, seq![Reply::Frame(frame)]) matches Step::Done(
                response,
            )
            &&& if total > offered {
                response == status_response(Status::OutOfGas, offered)
            } else {
                match frame {
                    FrameResult::Create(outcome, address) => match outcome.result {
                        InstructionResult::Return => {
                            &&& response.result == seq![1u8] + match address {
                                Some(address) => address@,
                                None => Seq::new(20, |i: int| 0u8),
                            }
                            &&& response.data == outcome.output
                            &&& response.gas == total
                        },
                        InstructionResult::Revert => {
                            &&& response.result == seq![1u8] + Seq::new(20, |i: int| 0u8)
                            &&& response.data == outcome.output
                            &&& response.gas == total
                        },
                        InstructionResult::Other => response == status_response(
                            Status::Failure,
                            offered,
                        ),
                    },
                    _ => response == status_response(Status::Failure, offered),
                }
            }
        }),
{
    let first = handler.create_step(cfg, salted, data);
    lemma_replies(handler, cfg, first, Reply::Frame(frame), Reply::Tstore);
}

/// The four statuses are told apart by their bytes.
pub proof fn law_status_codes_differ(a: Status, b: Status)
    ensures
        a.code() == b.code() ==> a == b,
{
}

} // verus!
