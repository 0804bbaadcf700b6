use arbos::gas::{AccountLoad, SStoreResult, CREATE};
use arbos::spec_id::SpecId;
use arbos::stylus::handler::StylusHandler;
use arbos::stylus::message::{
    Action, CallInputs, CallScheme, CallValue, Cfg, CreateInputs, CreateScheme, EvmApiMethod,
    FrameGas, FrameResult, InstructionResult, InterpreterResult, Log, Pending, Reply, Response, StateLoad,
    Status, Step,
};
use arbos::wire::Word;
use revm::context_interface::host::SStoreResult as RevmSStoreResult;
use revm::context_interface::journaled_state::{
    AccountLoad as RevmAccountLoad, StateLoad as RevmStateLoad,
};
use revm::interpreter::gas as revm_gas;
use revm::primitives::U256;
use revm::specification::hardfork::SpecId as RevmSpecId;

type HostStep = Step<Vec<u8>, Vec<Word>>;

const OWN: [u8; 20] = [0xAA; 20];
const CALLEE: [u8; 20] = [0xCC; 20];

fn handler() -> StylusHandler {
    StylusHandler::new(OWN, false)
}

fn static_handler() -> StylusHandler {
    StylusHandler::new(OWN, true)
}

fn cfg(spec: SpecId) -> Cfg {
    Cfg { spec, max_code_size: 24576 }
}

fn word(value: u64) -> Word {
    let mut word = [0; 32];
    word[24..].copy_from_slice(&value.to_be_bytes());
    word
}

fn response(result: Vec<u8>, data: Vec<u8>, gas: u64) -> HostStep {
    Step::Done(Response { result, data, gas })
}

fn start(handler: &StylusHandler, cfg: &Cfg, method: EvmApiMethod, data: &[u8]) -> HostStep {
    assert!(handler.is_admissible(cfg, method, data));
    handler.request(cfg, method, data)
}

fn resume(handler: &StylusHandler, cfg: &Cfg, step: HostStep, reply: Reply<Vec<u8>>) -> HostStep {
    match step {
        Step::Act(_, pending) => {
            assert!(handler.is_acceptable(cfg, &pending, &reply));
            handler.resume(cfg, pending, reply)
        }
        Step::Done(_) => panic!("already answered"),
    }
}

fn pending(step: HostStep) -> Pending<Vec<u8>> {
    match step {
        Step::Act(_, pending) => pending,
        Step::Done(_) => panic!("already answered"),
    }
}

fn outcome(result: InstructionResult, output: &[u8], limit: u64, remaining: u64) -> InterpreterResult<Vec<u8>> {
    InterpreterResult { result, output: output.to_vec(), gas: FrameGas { limit, remaining } }
}

fn call_data(value: Word, gas_left: u64, gas_limit: u64, calldata: &[u8]) -> Vec<u8> {
    let mut data = CALLEE.to_vec();
    data.extend(value);
    data.extend(gas_left.to_be_bytes());
    data.extend(gas_limit.to_be_bytes());
    data.extend(calldata);
    data
}

fn create_data(gas: u64, value: Word, salt: Option<Word>, code: &[u8]) -> Vec<u8> {
    let mut data = gas.to_be_bytes().to_vec();
    data.extend(value);
    if let Some(salt) = salt {
        data.extend(salt);
    }
    data.extend(code);
    data
}

fn slots_data(gas_left: u64, slots: &[(Word, Word)]) -> Vec<u8> {
    let mut data = gas_left.to_be_bytes().to_vec();
    for (key, value) in slots {
        data.extend(key);
        data.extend(value);
    }
    data
}

fn stored(original: u64, present: u64, new: u64, is_cold: bool) -> Reply<Vec<u8>> {
    Reply::Sstore(Some(StateLoad {
        data: SStoreResult {
            original_value: word(original),
            present_value: word(present),
            new_value: word(new),
        },
        is_cold,
    }))
}

fn all_forks() -> Vec<SpecId> {
    (0..=255u8).filter_map(SpecId::try_from_u8).collect()
}

fn revm_fork(spec: SpecId) -> RevmSpecId {
    RevmSpecId::try_from_u8(spec.to_u8()).unwrap()
}

#[test]
fn statuses_are_single_bytes() {
    assert_eq!(Status::Success.to_bytes(), vec![0]);
    assert_eq!(Status::Failure.to_bytes(), vec![1]);
    assert_eq!(Status::OutOfGas.to_bytes(), vec![2]);
    assert_eq!(Status::WriteProtection.to_bytes(), vec![3]);
}

#[test]
fn storage_read_returns_the_word() {
    let cfg = cfg(SpecId::CANCUN);
    let step = start(&handler(), &cfg, EvmApiMethod::GetBytes32, &word(5));
    assert_eq!(step, Step::Act(Action::Sload { address: OWN, slot: word(5) }, Pending::Sload));
    let load = StateLoad { data: word(77), is_cold: true };
    let step = resume(&handler(), &cfg, step, Reply::Sload(Some(load)));
    assert_eq!(step, response(word(77).to_vec(), vec![], 2100));
}

#[test]
fn storage_read_without_a_value_is_empty() {
    let cfg = cfg(SpecId::CANCUN);
    let step = start(&static_handler(), &cfg, EvmApiMethod::GetBytes32, &word(5));
    let step = resume(&static_handler(), &cfg, step, Reply::Sload(None));
    assert_eq!(step, response(vec![], vec![], 0));
}

#[test]
fn storage_read_prices() {
    let price = |spec: SpecId, is_cold: bool| {
        let cfg = cfg(spec);
        let step = start(&handler(), &cfg, EvmApiMethod::GetBytes32, &word(5));
        let load = StateLoad { data: word(0), is_cold };
        match resume(&handler(), &cfg, step, Reply::Sload(Some(load))) {
            Step::Done(response) => response.gas,
            Step::Act(_, _) => panic!("not answered"),
        }
    };
    assert_eq!(price(SpecId::FRONTIER, true), 50);
    assert_eq!(price(SpecId::TANGERINE, true), 200);
    assert_eq!(price(SpecId::ISTANBUL, true), 800);
    assert_eq!(price(SpecId::BERLIN, true), 2100);
    assert_eq!(price(SpecId::BERLIN, false), 100);
    for spec in all_forks() {
        for is_cold in [false, true] {
            assert_eq!(price(spec, is_cold), revm_gas::sload_cost(revm_fork(spec), is_cold));
        }
    }
}

#[test]
fn transient_storage_is_free() {
    let cfg = cfg(SpecId::CANCUN);
    let step = start(&handler(), &cfg, EvmApiMethod::GetTransientBytes32, &word(6));
    assert_eq!(step, Step::Act(Action::Tload { address: OWN, slot: word(6) }, Pending::Tload));
    let step = resume(&handler(), &cfg, step, Reply::Tload(word(8)));
    assert_eq!(step, response(word(8).to_vec(), vec![], 0));

    let mut data = word(6).to_vec();
    data.extend(word(9));
    let step = start(&handler(), &cfg, EvmApiMethod::SetTransientBytes32, &data);
    let action = Action::Tstore { address: OWN, key: word(6), value: word(9) };
    assert_eq!(step, Step::Act(action, Pending::Tstore));
    let step = resume(&handler(), &cfg, step, Reply::Tstore);
    assert_eq!(step, response(vec![0], vec![], 0));
}

#[test]
fn slots_are_written_in_order() {
    let cfg = cfg(SpecId::BERLIN);
    let data = slots_data(50_000, &[(word(1), word(10)), (word(2), word(20))]);
    let step = start(&handler(), &cfg, EvmApiMethod::SetTrieSlots, &data);
    let rest = data[72..].to_vec();
    assert_eq!(
        step,
        Step::Act(
            Action::Sstore { address: OWN, key: word(1), value: word(10) },
            Pending::Sstore { gas_left: 50_000, total_cost: 0, rest },
        )
    );
    let step = resume(&handler(), &cfg, step, stored(0, 0, 10, true));
    assert_eq!(
        step,
        Step::Act(
            Action::Sstore { address: OWN, key: word(2), value: word(20) },
            Pending::Sstore { gas_left: 50_000, total_cost: 22_100, rest: vec![] },
        )
    );
    let step = resume(&handler(), &cfg, step, stored(5, 5, 20, false));
    assert_eq!(step, response(vec![0], vec![], 50_000 - 22_100 - 2_900));
}

#[test]
fn slots_run_out_of_gas() {
    let cfg = cfg(SpecId::BERLIN);
    let data = slots_data(22_150, &[(word(1), word(10)), (word(2), word(20)), (word(3), word(30))]);
    let step = start(&handler(), &cfg, EvmApiMethod::SetTrieSlots, &data);
    let step = resume(&handler(), &cfg, step, stored(0, 0, 10, true));
    let step = resume(&handler(), &cfg, step, stored(7, 7, 7, false));
    assert_eq!(step, response(vec![2], vec![], 22_150));
}

#[test]
fn slots_may_use_up_all_gas() {
    let cfg = cfg(SpecId::BERLIN);
    let data = slots_data(22_100, &[(word(1), word(10))]);
    let step = start(&handler(), &cfg, EvmApiMethod::SetTrieSlots, &data);
    let step = resume(&handler(), &cfg, step, stored(0, 0, 10, true));
    assert_eq!(step, response(vec![0], vec![], 0));
}

#[test]
fn slots_fail_with_the_host() {
    let cfg = cfg(SpecId::BERLIN);
    let data = slots_data(100_000, &[(word(1), word(10)), (word(2), word(20))]);
    let step = start(&handler(), &cfg, EvmApiMethod::SetTrieSlots, &data);
    let step = resume(&handler(), &cfg, step, stored(0, 0, 10, false));
    let step = resume(&handler(), &cfg, step, Reply::Sstore(None));
    assert_eq!(step, response(vec![1], vec![], 100_000));
}

#[test]
fn no_slots_need_no_host() {
    let step = start(&handler(), &cfg(SpecId::BERLIN), EvmApiMethod::SetTrieSlots, &slots_data(9, &[]));
    assert_eq!(step, response(vec![0], vec![], 9));
}

#[test]
fn incomplete_slots_are_not_taken() {
    let cfg = cfg(SpecId::BERLIN);
    let mut data = slots_data(100_000, &[(word(1), word(10))]);
    data.push(0);
    // The odd byte matters once the first slot is stored, unless the gas is gone by then.
    let step = start(&handler(), &cfg, EvmApiMethod::SetTrieSlots, &data);
    let pending = pending(step);
    assert!(!handler().is_acceptable(&cfg, &pending, &stored(0, 0, 10, true)));
    assert!(handler().is_acceptable(&cfg, &pending, &Reply::Sstore(None)));
    data.truncate(70);
    assert!(!handler().is_admissible(&cfg, EvmApiMethod::SetTrieSlots, &data));
    assert!(static_handler().is_admissible(&cfg, EvmApiMethod::SetTrieSlots, &data));
}

#[test]
fn slot_prices_must_fit() {
    let cfg = cfg(SpecId::BERLIN);
    let pending = Pending::Sstore { gas_left: u64::MAX, total_cost: u64::MAX - 99, rest: vec![] };
    assert!(!handler().is_acceptable(&cfg, &pending, &stored(1, 1, 1, false)));
    let pending = Pending::Sstore { gas_left: u64::MAX, total_cost: u64::MAX - 100, rest: vec![] };
    assert!(handler().is_acceptable(&cfg, &pending, &stored(1, 1, 1, false)));
}

#[test]
fn storage_write_prices() {
    let price = |spec: SpecId, original: u64, present: u64, new: u64, is_cold: bool| {
        let cfg = cfg(spec);
        let data = slots_data(1_000_000, &[(word(1), word(new))]);
        let step = start(&handler(), &cfg, EvmApiMethod::SetTrieSlots, &data);
        match resume(&handler(), &cfg, step, stored(original, present, new, is_cold)) {
            Step::Done(response) => 1_000_000 - response.gas,
            Step::Act(_, _) => panic!("not answered"),
        }
    };
    assert_eq!(price(SpecId::BERLIN, 0, 0, 1, true), 22_100);
    assert_eq!(price(SpecId::BERLIN, 1, 1, 2, true), 5_000);
    assert_eq!(price(SpecId::BERLIN, 1, 2, 3, false), 100);
    assert_eq!(price(SpecId::ISTANBUL, 1, 1, 2, true), 5_000);
    assert_eq!(price(SpecId::ISTANBUL, 1, 1, 1, true), 800);
    assert_eq!(price(SpecId::FRONTIER, 9, 0, 1, false), 20_000);
    assert_eq!(price(SpecId::FRONTIER, 9, 1, 0, false), 5_000);
    for spec in all_forks() {
        for original in 0..3 {
            for present in 0..3 {
                for new in 0..3 {
                    for is_cold in [false, true] {
                        let vals = RevmSStoreResult {
                            original_value: U256::from(original),
                            present_value: U256::from(present),
                            new_value: U256::from(new),
                        };
                        assert_eq!(
                            price(spec, original, present, new, is_cold),
                            revm_gas::sstore_cost(revm_fork(spec), &vals, is_cold)
                        );
                    }
                }
            }
        }
    }
}

#[test]
fn static_programs_cannot_write() {
    let cfg = cfg(SpecId::CANCUN);
    let handler = static_handler();
    let slots = slots_data(77, &[(word(1), word(2))]);
    assert_eq!(start(&handler, &cfg, EvmApiMethod::SetTrieSlots, &slots), response(vec![3], vec![], 77));
    assert_eq!(start(&handler, &cfg, EvmApiMethod::SetTransientBytes32, &[]), response(vec![3], vec![], 0));
    for method in [EvmApiMethod::ContractCall, EvmApiMethod::DelegateCall, EvmApiMethod::StaticCall] {
        let data = call_data(word(1), 500, 400, &[]);
        assert_eq!(start(&handler, &cfg, method, &data), response(vec![3], vec![], 500));
    }
    let data = create_data(1_000_000, word(0), None, &[1]);
    assert_eq!(start(&handler, &cfg, EvmApiMethod::Create1, &data), response(vec![3], vec![], 0));
    let data = create_data(1_000_000, word(0), Some(word(4)), &[1]);
    assert_eq!(start(&handler, &cfg, EvmApiMethod::Create2, &data), response(vec![3], vec![], 0));
}

#[test]
fn only_static_writes_are_refused() {
    let cfg = cfg(SpecId::CANCUN);
    let refusal = Status::WriteProtection.to_bytes();
    let mut transient = word(6).to_vec();
    transient.extend(word(9));
    let step = start(&handler(), &cfg, EvmApiMethod::SetTransientBytes32, &transient);
    assert_eq!(resume(&handler(), &cfg, step, Reply::Tstore), response(vec![0], vec![], 0));

    let data = call_data(word(0), 500, 400, &[]);
    for method in [EvmApiMethod::ContractCall, EvmApiMethod::DelegateCall, EvmApiMethod::StaticCall] {
        let step = start(&static_handler(), &cfg, method, &data);
        let data = AccountLoad { is_delegate_account_cold: None, is_empty: false };
        let load = Reply::LoadAccount(Some(StateLoad { data, is_cold: false }));
        let step = resume(&static_handler(), &cfg, step, load);
        let frame = FrameResult::Call(outcome(InstructionResult::Revert, &refusal, 400, 0));
        let step = resume(&static_handler(), &cfg, step, Reply::Frame(frame));
        assert_eq!(step, response(vec![0], refusal.clone(), 500));
    }
}

#[test]
fn static_programs_can_log() {
    let step = start(&static_handler(), &cfg(SpecId::CANCUN), EvmApiMethod::EmitLog, &[0, 0, 0, 0, 9]);
    let log = Log { address: OWN, topics: vec![], data: vec![9] };
    assert_eq!(step, Step::Act(Action::EmitLog(log), Pending::EmitLog));
}

fn call_frame(handler: &StylusHandler, spec: SpecId, method: EvmApiMethod, data: &[u8]) -> CallInputs<Vec<u8>> {
    let cfg = cfg(spec);
    let step = start(handler, &cfg, method, data);
    let data = AccountLoad { is_delegate_account_cold: None, is_empty: false };
    let step = resume(handler, &cfg, step, Reply::LoadAccount(Some(StateLoad { data, is_cold: false })));
    match step {
        Step::Act(Action::Call(inputs), Pending::CallFrame { .. }) => inputs,
        _ => panic!("no call frame"),
    }
}

#[test]
fn call_frames() {
    let data = call_data(word(3), 6_400, 1_000, &[1, 2, 3]);
    let inputs = call_frame(&handler(), SpecId::CANCUN, EvmApiMethod::ContractCall, &data);
    assert_eq!(
        inputs,
        CallInputs {
            input: vec![1, 2, 3],
            return_memory_offset: 0..0,
            gas_limit: 1_000,
            bytecode_address: CALLEE,
            target_address: CALLEE,
            caller: OWN,
            value: CallValue::Transfer(word(3)),
            scheme: CallScheme::Call,
            is_static: false,
            is_eof: false,
        }
    );
    let inputs = call_frame(&handler(), SpecId::CANCUN, EvmApiMethod::DelegateCall, &data);
    assert_eq!(inputs.scheme, CallScheme::DelegateCall);
    assert_eq!(inputs.bytecode_address, CALLEE);
    assert_eq!(inputs.target_address, OWN);
    assert!(!inputs.is_static);
    let inputs = call_frame(&handler(), SpecId::CANCUN, EvmApiMethod::StaticCall, &data);
    assert_eq!(inputs.scheme, CallScheme::StaticCall);
    assert_eq!(inputs.target_address, CALLEE);
    assert!(inputs.is_static);
}

#[test]
fn calls_of_static_programs_are_static() {
    let data = call_data(word(0), 6_400, 1_000, &[]);
    for method in [EvmApiMethod::ContractCall, EvmApiMethod::DelegateCall, EvmApiMethod::StaticCall] {
        assert!(call_frame(&static_handler(), SpecId::CANCUN, method, &data).is_static);
    }
}

#[test]
fn call_gas_is_held_back() {
    let data = call_data(word(0), 6_400, u64::MAX, &[]);
    let gas = |spec: SpecId| call_frame(&handler(), spec, EvmApiMethod::ContractCall, &data).gas_limit;
    assert_eq!(gas(SpecId::TANGERINE), 6_300);
    assert_eq!(gas(SpecId::DAO_FORK), u64::MAX);
    let data = call_data(word(0), 63, u64::MAX, &[]);
    let inputs = call_frame(&handler(), SpecId::CANCUN, EvmApiMethod::ContractCall, &data);
    assert_eq!(inputs.gas_limit, 63);
}

#[test]
fn calls_are_first_loaded() {
    let cfg = cfg(SpecId::CANCUN);
    let data = call_data(word(3), 6_400, 1_000, &[1]);
    let step = start(&handler(), &cfg, EvmApiMethod::ContractCall, &data);
    match &step {
        Step::Act(Action::LoadAccount { address }, Pending::LoadAccount(request)) => {
            assert_eq!(*address, CALLEE);
            assert_eq!(request.gas_left, 6_400);
            assert_eq!(request.gas_limit, 1_000);
            assert_eq!(request.value, word(3));
            assert_eq!(request.calldata, vec![1]);
        }
        _ => panic!("no account load"),
    }
    let step = resume(&handler(), &cfg, step, Reply::LoadAccount(None));
    assert_eq!(step, response(vec![1], vec![], 6_400));
}

#[test]
fn call_answers() {
    let cfg = cfg(SpecId::CANCUN);
    let data = call_data(word(3), 100_000, 50_000, &[]);
    let load = || {
        let step = start(&handler(), &cfg, EvmApiMethod::ContractCall, &data);
        let data = AccountLoad { is_delegate_account_cold: None, is_empty: true };
        resume(&handler(), &cfg, step, Reply::LoadAccount(Some(StateLoad { data, is_cold: true })))
    };
    let charge = 50_000 + 2_600 + 9_000 + 25_000;
    for result in [InstructionResult::Return, InstructionResult::Revert, InstructionResult::Other] {
        let frame = FrameResult::Call(outcome(result, &[4, 5], 50_000, 20_000));
        let step = resume(&handler(), &cfg, load(), Reply::Frame(frame));
        assert_eq!(step, response(vec![0], vec![4, 5], charge - 20_000));
    }
    let frame = FrameResult::Create(outcome(InstructionResult::Return, &[4, 5], 50_000, 20_000), None);
    let step = resume(&handler(), &cfg, load(), Reply::Frame(frame));
    assert_eq!(step, response(vec![], vec![], charge));
    let frame = FrameResult::Call(outcome(InstructionResult::Return, &[], charge, charge + 1));
    assert!(!handler().is_acceptable(&cfg, &pending(load()), &Reply::Frame(frame)));
}

#[test]
fn call_prices() {
    for spec in all_forks() {
        for transfers in [false, true] {
            for is_empty in [false, true] {
                for delegate in [None, Some(false), Some(true)] {
                    for is_cold in [false, true] {
                        let cfg = cfg(spec);
                        let data = call_data(word(u64::from(transfers)), 100_000, 50_000, &[]);
                        let step = start(&handler(), &cfg, EvmApiMethod::ContractCall, &data);
                        let data = AccountLoad { is_delegate_account_cold: delegate, is_empty };
                        let reply = Reply::LoadAccount(Some(StateLoad { data, is_cold }));
                        let data = RevmAccountLoad { is_delegate_account_cold: delegate, is_empty };
                        let load = RevmStateLoad::new(data, is_cold);
                        match pending(resume(&handler(), &cfg, step, reply)) {
                            Pending::CallFrame { gas_limit, call_cost } => {
                                assert_eq!(gas_limit, 50_000);
                                assert_eq!(call_cost, revm_gas::call_cost(revm_fork(spec), transfers, load));
                            }
                            _ => panic!("no call frame"),
                        }
                    }
                }
            }
        }
    }
}

#[test]
fn call_charges_must_fit() {
    let cfg = cfg(SpecId::FRONTIER);
    let reply = || Reply::Frame(FrameResult::Call(outcome(InstructionResult::Return, &[], 0, 0)));
    let pending = Pending::CallFrame { gas_limit: u64::MAX, call_cost: 40 };
    assert!(!handler().is_acceptable(&cfg, &pending, &reply()));
    let pending = Pending::CallFrame { gas_limit: u64::MAX - 40, call_cost: 40 };
    assert!(handler().is_acceptable(&cfg, &pending, &reply()));
}

#[test]
fn creation_prices() {
    assert_eq!(CREATE, revm_gas::CREATE);
    let price = |spec: SpecId, salted: bool, len: usize| {
        let cfg = cfg(spec);
        let salt = if salted { Some(word(1)) } else { None };
        let method = if salted { EvmApiMethod::Create2 } else { EvmApiMethod::Create1 };
        let data = create_data(10_000_000, word(0), salt, &vec![7; len]);
        match pending(start(&handler(), &cfg, method, &data)) {
            Pending::CreateFrame { gas_remaining, gas_cost } => {
                assert_eq!(gas_remaining, 10_000_000);
                gas_cost
            }
            _ => panic!("no creation"),
        }
    };
    assert_eq!(price(SpecId::CANCUN, false, 0), 32_000);
    // Two words: metered at four, and six of memory.
    assert_eq!(price(SpecId::CANCUN, false, 33), 32_010);
    assert_eq!(price(SpecId::LONDON, false, 33), 32_006);
    assert_eq!(price(SpecId::CANCUN, true, 33), 32_022);
    // A thousand words.
    assert_eq!(price(SpecId::CANCUN, false, 32_000), 32_000 + 2_000 + 3_000 + 1_953);
    assert_eq!(price(SpecId::CANCUN, true, 32_000), 32_000 + 2_000 + 3_000 + 1_953 + 6_000);
}

#[test]
fn creation_frames() {
    let cfg = cfg(SpecId::CANCUN);
    let data = create_data(96_010, word(5), None, &[1; 40]);
    let step = start(&handler(), &cfg, EvmApiMethod::Create1, &data);
    assert_eq!(
        step,
        Step::Act(
            Action::Create(CreateInputs {
                caller: OWN,
                scheme: CreateScheme::Create,
                value: word(5),
                init_code: vec![1; 40],
                gas_limit: 63_000,
            }),
            Pending::CreateFrame { gas_remaining: 96_010, gas_cost: 32_010 },
        )
    );
    let data = create_data(96_022, word(5), Some(word(8)), &[1; 40]);
    let step = start(&handler(), &cfg, EvmApiMethod::Create2, &data);
    match step {
        Step::Act(Action::Create(inputs), _) => {
            assert_eq!(inputs.scheme, CreateScheme::Create2 { salt: word(8) });
            assert_eq!(inputs.gas_limit, 63_000);
            assert_eq!(inputs.init_code, vec![1; 40]);
        }
        _ => panic!("no creation"),
    }
    let data = create_data(96_000, word(5), None, &[]);
    match start(&handler(), &self::cfg(SpecId::DAO_FORK), EvmApiMethod::Create1, &data) {
        Step::Act(Action::Create(inputs), _) => assert_eq!(inputs.gas_limit, 64_000),
        _ => panic!("no creation"),
    }
}

#[test]
fn creations_that_never_start() {
    let cancun = cfg(SpecId::CANCUN);
    let data = create_data(31_999, word(0), None, &[]);
    assert_eq!(start(&handler(), &cancun, EvmApiMethod::Create1, &data), response(vec![2], vec![], 31_999));
    let data = create_data(32_000, word(0), None, &[]);
    assert!(matches!(start(&handler(), &cancun, EvmApiMethod::Create1, &data), Step::Act(_, _)));

    let data = create_data(1_000_000, word(0), Some(word(1)), &[1]);
    let old = cfg(SpecId::CONSTANTINOPLE);
    assert_eq!(start(&handler(), &old, EvmApiMethod::Create2, &data), response(vec![1], vec![], 1_000_000));
    let new = cfg(SpecId::PETERSBURG);
    assert!(matches!(start(&handler(), &new, EvmApiMethod::Create2, &data), Step::Act(_, _)));

    let small = Cfg { spec: SpecId::SHANGHAI, max_code_size: 10 };
    let data = create_data(1_000_000, word(0), None, &[1; 21]);
    assert_eq!(start(&handler(), &small, EvmApiMethod::Create1, &data), response(vec![1], vec![], 1_000_000));
    let data = create_data(1_000_000, word(0), None, &[1; 20]);
    assert!(matches!(start(&handler(), &small, EvmApiMethod::Create1, &data), Step::Act(_, _)));
    let before = Cfg { spec: SpecId::MERGE, max_code_size: 10 };
    let data = create_data(1_000_000, word(0), None, &[1; 21]);
    assert!(matches!(start(&handler(), &before, EvmApiMethod::Create1, &data), Step::Act(_, _)));
    let boundless = Cfg { spec: SpecId::SHANGHAI, max_code_size: usize::MAX };
    assert!(matches!(start(&handler(), &boundless, EvmApiMethod::Create1, &data), Step::Act(_, _)));
}

#[test]
fn creation_answers() {
    let cfg = cfg(SpecId::CANCUN);
    let begin = || start(&handler(), &cfg, EvmApiMethod::Create1, &create_data(96_000, word(0), None, &[]));
    let finish = |frame: FrameResult<Vec<u8>>| resume(&handler(), &cfg, begin(), Reply::Frame(frame));

    let mut created = vec![1];
    created.extend([0xDD; 20]);
    let mut nowhere = vec![1];
    nowhere.extend([0; 20]);

    let frame = FrameResult::Create(outcome(InstructionResult::Return, &[6], 63_000, 13_000), Some([0xDD; 20]));
    assert_eq!(finish(frame), response(created.clone(), vec![6], 82_000));
    let frame = FrameResult::Create(outcome(InstructionResult::Return, &[6], 63_000, 13_000), None);
    assert_eq!(finish(frame), response(nowhere.clone(), vec![6], 82_000));
    let frame = FrameResult::Create(outcome(InstructionResult::Revert, &[7], 63_000, 13_000), Some([0xDD; 20]));
    assert_eq!(finish(frame), response(nowhere, vec![7], 82_000));
    let frame = FrameResult::Create(outcome(InstructionResult::Other, &[8], 63_000, 0), Some([0xDD; 20]));
    assert_eq!(finish(frame), response(vec![1], vec![], 96_000));
    let frame = FrameResult::Call(outcome(InstructionResult::Return, &[8], 63_000, 0));
    assert_eq!(finish(frame), response(vec![1], vec![], 96_000));
    let frame = FrameResult::EofCreate(outcome(InstructionResult::Return, &[8], 63_000, 0), Some([0xDD; 20]));
    assert_eq!(finish(frame), response(vec![1], vec![], 96_000));
    let frame = FrameResult::Create(outcome(InstructionResult::Return, &[6], 64_001, 0), Some([0xDD; 20]));
    assert_eq!(finish(frame), response(vec![2], vec![], 96_000));

    let frame = FrameResult::Create(outcome(InstructionResult::Return, &[], 10, 11), None);
    assert!(!handler().is_acceptable(&cfg, &pending(begin()), &Reply::Frame(frame)));
    let frame = FrameResult::Create(outcome(InstructionResult::Return, &[], u64::MAX, 0), None);
    assert!(!handler().is_acceptable(&cfg, &pending(begin()), &Reply::Frame(frame)));
}

#[test]
fn logs_are_passed_on() {
    let cfg = cfg(SpecId::CANCUN);
    let mut data = vec![0, 0, 0, 2];
    data.extend(word(11));
    data.extend(word(12));
    data.extend([1, 2, 3]);
    let step = start(&handler(), &cfg, EvmApiMethod::EmitLog, &data);
    let log = Log { address: OWN, topics: vec![word(11), word(12)], data: vec![1, 2, 3] };
    assert_eq!(step, Step::Act(Action::EmitLog(log), Pending::EmitLog));
    assert_eq!(resume(&handler(), &cfg, step, Reply::EmitLog), response(vec![], vec![], 0));
    assert!(!handler().is_admissible(&cfg, EvmApiMethod::EmitLog, &data[..67]));
    assert!(!handler().is_admissible(&cfg, EvmApiMethod::EmitLog, &[0xFF; 4]));
    assert!(!handler().is_admissible(&cfg, EvmApiMethod::EmitLog, &[0; 3]));
}

#[test]
fn account_queries() {
    let cfg = Cfg { spec: SpecId::CANCUN, max_code_size: 3 * 24576 + 1 };
    let step = start(&handler(), &cfg, EvmApiMethod::AccountBalance, &CALLEE);
    assert_eq!(step, Step::Act(Action::Balance { address: CALLEE }, Pending::Balance));
    let reply = Reply::Balance(Some(StateLoad { data: word(99), is_cold: true }));
    assert_eq!(resume(&handler(), &cfg, step, reply), response(word(99).to_vec(), vec![], 2_600));

    let step = start(&handler(), &cfg, EvmApiMethod::AccountCode, &CALLEE);
    assert_eq!(step, Step::Act(Action::Code { address: CALLEE }, Pending::Code));
    let reply = Reply::Code(Some(StateLoad { data: vec![1, 2], is_cold: false }));
    assert_eq!(resume(&handler(), &cfg, step, reply), response(vec![], vec![1, 2], 2_200));

    let step = start(&handler(), &cfg, EvmApiMethod::AccountCodeHash, &CALLEE);
    assert_eq!(step, Step::Act(Action::CodeHash { address: CALLEE }, Pending::CodeHash));
    let reply = Reply::CodeHash(Some(StateLoad { data: word(98), is_cold: false }));
    assert_eq!(resume(&handler(), &cfg, step, reply), response(word(98).to_vec(), vec![], 100));
}

#[test]
fn account_queries_must_succeed() {
    let cfg = cfg(SpecId::CANCUN);
    assert!(!handler().is_acceptable(&cfg, &Pending::Balance, &Reply::Balance(None)));
    assert!(!handler().is_acceptable(&cfg, &Pending::Code, &Reply::Code(None)));
    assert!(!handler().is_acceptable(&cfg, &Pending::CodeHash, &Reply::CodeHash(None)));
}

#[test]
fn account_touch_prices() {
    let cfg = Cfg { spec: SpecId::CANCUN, max_code_size: 24576 };
    assert_eq!(handler().wasm_account_touch(&cfg, false, false), 100);
    assert_eq!(handler().wasm_account_touch(&cfg, true, false), 2_600);
    assert_eq!(handler().wasm_account_touch(&cfg, true, true), 3_300);
    let small = Cfg { spec: SpecId::CANCUN, max_code_size: 24575 };
    assert_eq!(handler().wasm_account_touch(&small, true, true), 2_600);
    for is_cold in [false, true] {
        assert_eq!(handler().wasm_account_touch(&cfg, is_cold, false), revm_gas::warm_cold_cost(is_cold));
    }
}

#[test]
fn pages_and_traces_need_no_host() {
    let cfg = cfg(SpecId::CANCUN);
    assert_eq!(start(&handler(), &cfg, EvmApiMethod::AddPages, &[0, 1]), response(vec![0], vec![], 0));
    assert_eq!(start(&handler(), &cfg, EvmApiMethod::CaptureHostIO, &[]), response(vec![0], vec![], 0));
    assert!(!handler().is_admissible(&cfg, EvmApiMethod::AddPages, &[0]));
}

#[test]
fn short_requests_are_not_admissible() {
    let cfg = cfg(SpecId::CANCUN);
    let shortest = [
        (EvmApiMethod::GetBytes32, 32),
        (EvmApiMethod::SetTrieSlots, 8),
        (EvmApiMethod::GetTransientBytes32, 32),
        (EvmApiMethod::SetTransientBytes32, 64),
        (EvmApiMethod::ContractCall, 68),
        (EvmApiMethod::DelegateCall, 68),
        (EvmApiMethod::StaticCall, 68),
        (EvmApiMethod::Create1, 40),
        (EvmApiMethod::Create2, 72),
        (EvmApiMethod::EmitLog, 4),
        (EvmApiMethod::AccountBalance, 20),
        (EvmApiMethod::AccountCode, 20),
        (EvmApiMethod::AccountCodeHash, 20),
        (EvmApiMethod::AddPages, 2),
    ];
    for (method, len) in shortest {
        assert!(handler().is_admissible(&cfg, method, &vec![0; len]));
        assert!(!handler().is_admissible(&cfg, method, &vec![0; len - 1]));
    }
}

#[test]
fn replies_must_fit_the_action() {
    let cfg = cfg(SpecId::CANCUN);
    assert!(handler().is_acceptable(&cfg, &Pending::Tstore, &Reply::Tstore));
    assert!(!handler().is_acceptable(&cfg, &Pending::Tstore, &Reply::EmitLog));
    assert!(!handler().is_acceptable(&cfg, &Pending::Sload, &Reply::Balance(None)));
    assert!(!handler().is_acceptable(&cfg, &Pending::EmitLog, &Reply::Tload([0; 32])));
}
