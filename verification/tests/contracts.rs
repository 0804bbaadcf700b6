//! Programs that talk to a small host through the request handler: one that reads and writes a
//! storage slot, one that passes a call on, and one that creates contracts.

use std::collections::{HashMap, HashSet};

use alloy_primitives::{keccak256, Address, B256, U256};
use arbos::gas::{AccountLoad, SStoreResult};
use arbos::journal::ArbOsJournaledState;
use arbos::spec_id::SpecId;
use arbos::stylus::handler::StylusHandler;
use arbos::stylus::message::{
    Action, CallInputs, CallValue, Cfg, CreateInputs, CreateScheme, EvmApiMethod, FrameGas,
    FrameResult,
    InstructionResult, InterpreterResult, Reply, Response, StateLoad, Status, Step,
};
use arbos::wire::Word;

const CFG: Cfg = Cfg { spec: SpecId::CANCUN, max_code_size: 24576 };

const STORAGE_PROGRAM: &[u8] = b"storage";
const MULTICALL_PROGRAM: &[u8] = b"multicall";
const CREATE_PROGRAM: &[u8] = b"create";

/// What stands before the code that the init code of the tests returns.
const INIT_PREFIX: &[u8] = b"return the rest: ";

#[derive(Clone, Default)]
struct Account {
    balance: U256,
    nonce: u64,
    code: Vec<u8>,
    storage: HashMap<Word, Word>,
}

#[derive(Clone)]
struct LogEntry {
    address: Address,
    topics: Vec<Word>,
}

#[derive(Clone, Default)]
struct World {
    accounts: HashMap<Address, Account>,
    transient: HashMap<(Address, Word), Word>,
    warm_accounts: HashSet<Address>,
    warm_slots: HashSet<(Address, Word)>,
    original: HashMap<(Address, Word), Word>,
    logs: Vec<LogEntry>,
}

#[derive(Debug)]
enum ExecutionResult {
    Success { output: Vec<u8> },
    Revert { output: Vec<u8> },
    /// The program could not go on, as when it is called with too little to read.
    Halt,
}

impl ExecutionResult {
    fn is_success(&self) -> bool {
        matches!(self, ExecutionResult::Success { .. })
    }

    fn output(&self) -> Option<&Vec<u8>> {
        match self {
            ExecutionResult::Success { output } | ExecutionResult::Revert { output } => Some(output),
            ExecutionResult::Halt => None,
        }
    }
}

fn stylus_code(program: &[u8]) -> Vec<u8> {
    let mut code = ArbOsJournaledState::<()>::new_stylus_prefix(0);
    code.extend(program);
    code
}

fn init_code(program: &[u8]) -> Vec<u8> {
    let mut code = INIT_PREFIX.to_vec();
    code.extend(stylus_code(program));
    code
}

fn deployer() -> Address {
    "Bd770416a3345F91E4B34576cb804a576fa48EB1".parse().unwrap()
}

fn outcome(result: InstructionResult, output: Vec<u8>, gas_limit: u64) -> InterpreterResult<Vec<u8>> {
    let remaining = if result == InstructionResult::Other { 0 } else { gas_limit };
    InterpreterResult { result, output, gas: FrameGas { limit: gas_limit, remaining } }
}

impl World {
    fn account(&mut self, address: Address) -> &mut Account {
        self.accounts.entry(address).or_default()
    }

    fn deploy(&mut self, program: &[u8], deployer: Address) -> Address {
        let nonce = self.account(deployer).nonce;
        self.account(deployer).nonce += 1;
        let address = deployer.create(nonce);
        let account = self.account(address);
        account.code = stylus_code(program);
        account.nonce = 1;
        address
    }

    fn slot(&mut self, address: Address, slot: Word) -> Word {
        self.account(address).storage.get(&slot).copied().unwrap_or_default()
    }

    fn transfer(&mut self, from: Address, to: Address, value: U256) -> bool {
        if self.account(from).balance < value {
            return false;
        }
        self.account(from).balance -= value;
        self.account(to).balance += value;
        true
    }

    fn perform(&mut self, action: Action<Vec<u8>, Vec<Word>>) -> Reply<Vec<u8>> {
        match action {
            Action::Sload { address, slot } => {
                let address = Address::from(address);
                let is_cold = self.warm_slots.insert((address, slot));
                Reply::Sload(Some(StateLoad { data: self.slot(address, slot), is_cold }))
            }
            Action::Sstore { address, key, value } => {
                let address = Address::from(address);
                let is_cold = self.warm_slots.insert((address, key));
                let present_value = self.slot(address, key);
                let original_value = *self.original.entry((address, key)).or_insert(present_value);
                self.account(address).storage.insert(key, value);
                let data = SStoreResult { original_value, present_value, new_value: value };
                Reply::Sstore(Some(StateLoad { data, is_cold }))
            }
            Action::Tload { address, slot } => {
                let key = (Address::from(address), slot);
                Reply::Tload(self.transient.get(&key).copied().unwrap_or_default())
            }
            Action::Tstore { address, key, value } => {
                self.transient.insert((Address::from(address), key), value);
                Reply::Tstore
            }
            Action::LoadAccount { address } => {
                let address = Address::from(address);
                let is_cold = self.warm_accounts.insert(address);
                let is_empty = !self.accounts.contains_key(&address);
                let data = AccountLoad { is_delegate_account_cold: None, is_empty };
                Reply::LoadAccount(Some(StateLoad { data, is_cold }))
            }
            Action::Call(inputs) => Reply::Frame(FrameResult::Call(self.call(inputs))),
            Action::Create(inputs) => {
                let (outcome, address) = self.create(inputs);
                Reply::Frame(FrameResult::Create(outcome, address))
            }
            Action::EmitLog(log) => {
                self.logs.push(LogEntry { address: log.address.into(), topics: log.topics });
                Reply::EmitLog
            }
            action => panic!("unexpected action: {:?}", action),
        }
    }

    fn call(&mut self, inputs: CallInputs<Vec<u8>>) -> InterpreterResult<Vec<u8>> {
        let before = self.clone();
        let value = match inputs.value {
            CallValue::Transfer(value) => U256::from_be_bytes(value),
            CallValue::Apparent(_) => U256::ZERO,
        };
        if !self.transfer(inputs.caller.into(), inputs.target_address.into(), value) {
            return outcome(InstructionResult::Other, vec![], inputs.gas_limit);
        }
        let code = self.account(inputs.bytecode_address.into()).code.clone();
        let handler = StylusHandler::new(inputs.target_address, inputs.is_static);
        let end = self.execute(&handler, &code, &inputs.input, inputs.gas_limit);
        if !end.is_success() {
            *self = before;
        }
        match end {
            ExecutionResult::Success { output } => {
                outcome(InstructionResult::Return, output, inputs.gas_limit)
            }
            ExecutionResult::Revert { output } => {
                outcome(InstructionResult::Revert, output, inputs.gas_limit)
            }
            ExecutionResult::Halt => outcome(InstructionResult::Other, vec![], inputs.gas_limit),
        }
    }

    fn create(
        &mut self,
        inputs: CreateInputs<Vec<u8>>,
    ) -> (InterpreterResult<Vec<u8>>, Option<[u8; 20]>) {
        let caller = Address::from(inputs.caller);
        let value = U256::from_be_bytes(inputs.value);
        if self.account(caller).balance < value {
            return (outcome(InstructionResult::Other, vec![], inputs.gas_limit), None);
        }
        let nonce = self.account(caller).nonce;
        self.account(caller).nonce += 1;
        let address = match inputs.scheme {
            CreateScheme::Create => caller.create(nonce),
            CreateScheme::Create2 { salt } => caller.create2_from_code(salt, &inputs.init_code),
        };
        assert!(self.transfer(caller, address, value));
        let code = inputs.init_code.strip_prefix(INIT_PREFIX).unwrap().to_vec();
        self.account(address).code = code;
        (outcome(InstructionResult::Return, vec![], inputs.gas_limit), Some(address.into_array()))
    }

    fn ask(&mut self, handler: &StylusHandler, method: EvmApiMethod, data: &[u8]) -> Response<Vec<u8>> {
        assert!(handler.is_admissible(&CFG, method, data));
        let mut step = handler.request(&CFG, method, data);
        loop {
            match step {
                Step::Done(response) => return response,
                Step::Act(action, pending) => {
                    let reply = self.perform(action);
                    assert!(handler.is_acceptable(&CFG, &pending, &reply));
                    step = handler.resume(&CFG, pending, reply);
                }
            }
        }
    }

    fn execute(&mut self, handler: &StylusHandler, code: &[u8], input: &[u8], gas: u64) -> ExecutionResult {
        let (program, dictionary) = ArbOsJournaledState::<()>::strip_stylus_prefix(code).unwrap();
        assert_eq!(dictionary, 0);
        if program == STORAGE_PROGRAM {
            self.storage_program(handler, input, gas)
        } else if program == MULTICALL_PROGRAM {
            self.multicall_program(handler, input, gas)
        } else {
            assert_eq!(program, CREATE_PROGRAM);
            self.create_program(handler, input, gas)
        }
    }

    /// Reads or writes a slot: an operation byte, the slot, the value to write.
    fn storage_program(
        &mut self,
        handler: &StylusHandler,
        input: &[u8],
        gas: u64,
    ) -> ExecutionResult {
        if input.len() < 65 {
            return ExecutionResult::Halt;
        }
        if input[0] == 0 {
            let response = self.ask(handler, EvmApiMethod::GetBytes32, &input[1..33]);
            return ExecutionResult::Success { output: response.result };
        }
        let mut data = gas.to_be_bytes().to_vec();
        data.extend(&input[1..65]);
        let response = self.ask(handler, EvmApiMethod::SetTrieSlots, &data);
        for status in [Status::Failure, Status::OutOfGas, Status::WriteProtection] {
            if response.result == status.to_bytes() {
                return ExecutionResult::Revert { output: format!("{:?}", status).into_bytes() };
            }
        }
        assert_eq!(response.result, Status::Success.to_bytes());
        ExecutionResult::Success { output: vec![] }
    }

    /// Makes one call: the number of calls, the length of what follows, a call byte, the value of
    /// an ordinary call, the callee, the calldata.
    fn multicall_program(&mut self, handler: &StylusHandler, input: &[u8], gas: u64) -> ExecutionResult {
        assert_eq!(input[0], 1);
        let call = &input[5..];
        assert_eq!(input[1..5], (call.len() as u32).to_be_bytes());
        let (method, value, rest) = match call[0] {
            0 => (EvmApiMethod::ContractCall, call[1..33].to_vec(), &call[33..]),
            1 => (EvmApiMethod::DelegateCall, vec![0; 32], &call[1..]),
            _ => (EvmApiMethod::StaticCall, vec![0; 32], &call[1..]),
        };
        let mut data = rest[..20].to_vec();
        data.extend(value);
        data.extend(gas.to_be_bytes());
        data.extend(gas.to_be_bytes());
        data.extend(&rest[20..]);
        let response = self.ask(handler, method, &data);
        assert_eq!(response.result, Status::Success.to_bytes());
        ExecutionResult::Success { output: response.data }
    }

    /// Creates a contract and logs its address: a kind byte, the endowment, the salt of the second
    /// kind, the init code.
    fn create_program(&mut self, handler: &StylusHandler, input: &[u8], gas: u64) -> ExecutionResult {
        let method = if input[0] == 2 { EvmApiMethod::Create2 } else { EvmApiMethod::Create1 };
        let mut data = gas.to_be_bytes().to_vec();
        data.extend(&input[1..]);
        let response = self.ask(handler, method, &data);
        if response.result.len() != 21 {
            return ExecutionResult::Revert { output: response.data };
        }
        let mut log = vec![0, 0, 0, 1];
        log.extend([0; 12]);
        log.extend(&response.result[1..]);
        self.ask(handler, EvmApiMethod::EmitLog, &log);
        ExecutionResult::Success { output: vec![] }
    }

    fn transact(&mut self, to: Address, input: &[u8]) -> ExecutionResult {
        self.transient.clear();
        self.warm_accounts.clear();
        self.warm_slots.clear();
        self.original.clear();
        self.logs.clear();
        let before = self.clone();
        let code = self.account(to).code.clone();
        let end = self.execute(&StylusHandler::new(to.into_array(), false), &code, input, 1_000_000_000);
        if !end.is_success() {
            *self = before;
        }
        end
    }
}

fn create_test(balance: U256, endowment: U256) {
    let mut world = World::default();
    let create_address = world.deploy(CREATE_PROGRAM, deployer());
    world.account(create_address).balance = balance;
    let expected_address = create_address.create(1);

    let mut data: Vec<u8> = vec![0x01];
    data.extend(endowment.to_be_bytes_vec());
    data.extend(init_code(STORAGE_PROGRAM));

    let result = world.transact(create_address, &data);
    assert!(result.is_success());

    assert_eq!(world.logs.len(), 1);
    assert_eq!(world.logs[0].address, create_address);
    assert_eq!(world.logs[0].topics.len(), 1);
    assert_eq!(world.logs[0].topics[0], expected_address.into_word().0);

    let account = world.accounts.get(&expected_address).unwrap();
    assert_eq!(account.balance, endowment);
    assert_eq!(account.code.len(), stylus_code(STORAGE_PROGRAM).len());
}

#[test]
fn create_with_no_endowment() {
    create_test(U256::ZERO, U256::ZERO);
}

#[test]
fn create_with_endowment() {
    create_test(U256::from(0.5e18), U256::from(0.5e18));
}

#[test]
fn create_with_endowment_exceeds_balance() {
    let endowment = U256::from(1.5e18);
    let mut world = World::default();
    let create_address = world.deploy(CREATE_PROGRAM, deployer());
    world.account(create_address).balance = U256::from(0.5e18);

    let mut data: Vec<u8> = vec![0x01];
    data.extend(endowment.to_be_bytes_vec());
    data.extend(init_code(STORAGE_PROGRAM));

    let result = world.transact(create_address, &data);
    match result {
        ExecutionResult::Revert { output } => assert_eq!(output, Vec::<u8>::new()),
        _ => panic!("Expected revert: {:?}", result),
    }
}

#[test]
fn create_2() {
    let mut world = World::default();
    let deployed_address = world.deploy(CREATE_PROGRAM, deployer());

    let kind: u8 = 0x02;
    let endowment = U256::from(0);
    let salt = B256::from(U256::from(1234));
    let code = init_code(STORAGE_PROGRAM);

    let mut data: Vec<u8> = vec![kind];
    data.extend(endowment.to_be_bytes_vec());
    data.extend(salt.to_vec());
    data.extend(code.clone());

    let expected_address = deployed_address.create2_from_code(salt, code);
    let result = world.transact(deployed_address, &data);
    assert!(result.is_success());

    assert_eq!(world.logs.len(), 1);
    assert_eq!(world.logs[0].address, deployed_address);
    assert_eq!(world.logs[0].topics.len(), 1);
    assert_eq!(world.logs[0].topics[0], expected_address.into_word().0);

    let account = world.accounts.get(&expected_address).unwrap();
    assert_eq!(account.code, stylus_code(STORAGE_PROGRAM));
}

#[derive(Copy, Clone)]
enum StorageOperation {
    Read,
    Write,
}

#[derive(Copy, Clone)]
enum CallOperation {
    Call,
    DelegateCall,
    StaticCall,
}

struct TestSetup {
    multicall: Address,
    storage: Address,
    world: World,
}

impl TestSetup {
    fn new() -> Self {
        let mut world = World::default();
        let multicall = world.deploy(MULTICALL_PROGRAM, deployer());
        let storage = world.deploy(STORAGE_PROGRAM, deployer());
        let slot = keccak256("some-storage-slot");
        let value = keccak256("some-storage-data");
        world.account(storage).storage.insert(slot.0, value.0);
        Self { multicall, storage, world }
    }

    fn prepare_storage_call(&self, op: StorageOperation, slot: &str, data: Option<&str>) -> Vec<u8> {
        let mut calldata = vec![op as u8];
        calldata.extend(keccak256(slot).to_vec());
        calldata.extend(keccak256(data.unwrap_or_default()).to_vec());
        calldata
    }

    fn prepare_multicall(
        &self,
        op: CallOperation,
        to: Address,
        value: Option<U256>,
        data: Vec<u8>,
    ) -> Vec<u8> {
        let mut call_data = vec![op as u8];
        if let CallOperation::Call = op {
            call_data.extend(value.unwrap_or_default().to_be_bytes_vec());
        }
        call_data.extend(to.to_vec());
        call_data.extend(data);

        let mut final_data = vec![0x01];
        final_data.extend(U256::from(call_data.len()).to_be_bytes_vec()[28..].to_vec());
        final_data.extend(call_data);
        final_data
    }
}

#[test]
fn test_direct_storage_read() {
    let mut setup = TestSetup::new();
    let call_data = setup.prepare_storage_call(StorageOperation::Read, "some-storage-slot", None);
    let result = setup.world.transact(setup.storage, &call_data);
    assert!(result.is_success());
    assert_eq!(result.output().unwrap().to_vec(), keccak256("some-storage-data").to_vec());
}

#[test]
fn test_multicall_storage_read() {
    let mut setup = TestSetup::new();
    let storage_call = setup.prepare_storage_call(StorageOperation::Read, "some-storage-slot", None);
    let multicall = setup.prepare_multicall(CallOperation::Call, setup.storage, None, storage_call);
    let result = setup.world.transact(setup.multicall, &multicall);
    assert!(result.is_success());
    assert_eq!(result.output().unwrap().to_vec(), keccak256("some-storage-data").to_vec());
}

#[test]
fn test_multicall_storage_write() {
    let mut setup = TestSetup::new();
    let storage_call = setup.prepare_storage_call(
        StorageOperation::Write,
        "some-storage-slot",
        Some("new-storage-value"),
    );
    let multicall = setup.prepare_multicall(CallOperation::Call, setup.storage, None, storage_call);
    setup.world.transact(setup.multicall, &multicall);

    let slot = keccak256("some-storage-slot");
    let storage = setup.storage;
    assert_eq!(setup.world.slot(storage, slot.0).to_vec(), keccak256("new-storage-value").to_vec());
}

#[test]
fn test_static_call_write_protection() {
    let mut setup = TestSetup::new();
    let storage_call = setup.prepare_storage_call(
        StorageOperation::Write,
        "some-storage-slot",
        Some("new-storage-value"),
    );
    let multicall =
        setup.prepare_multicall(CallOperation::StaticCall, setup.storage, None, storage_call);
    let result = setup.world.transact(setup.multicall, &multicall);
    let output = String::from_utf8_lossy(result.output().unwrap());
    assert!(output.contains("WriteProtection"));

    let slot = keccak256("some-storage-slot");
    let storage = setup.storage;
    assert_eq!(setup.world.slot(storage, slot.0), keccak256("some-storage-data").0);
}

#[test]
fn test_delegatecall_storage_context() {
    let mut setup = TestSetup::new();
    let slot = keccak256("some-storage-slot");
    let value = keccak256("multicall-storage-value");
    let multicall_address = setup.multicall;
    setup.world.account(multicall_address).storage.insert(slot.0, value.0);

    let storage_call = setup.prepare_storage_call(StorageOperation::Read, "some-storage-slot", None);
    let multicall =
        setup.prepare_multicall(CallOperation::DelegateCall, setup.storage, None, storage_call);
    let result = setup.world.transact(setup.multicall, &multicall);
    assert!(result.is_success());
    assert_eq!(result.output().unwrap().to_vec(), keccak256("multicall-storage-value").to_vec());
}

#[test]
fn reads_give_back_the_last_write() {
    let mut world = World::default();
    let writer = StylusHandler::new([0xAA; 20], false);
    let reader = StylusHandler::new([0xAA; 20], true);
    let other = StylusHandler::new([0xBB; 20], false);
    let (key, first, last) = ([7; 32], [1; 32], [2; 32]);

    let mut data = 1_000_000u64.to_be_bytes().to_vec();
    for word in [key, first, [8; 32], [3; 32], key, last] {
        data.extend(word);
    }
    let response = world.ask(&writer, EvmApiMethod::SetTrieSlots, &data);
    assert_eq!(response.result, Status::Success.to_bytes());
    // A cold first write, another one, and a second write to the first slot.
    assert_eq!(response.gas, 1_000_000 - 22_100 - 22_100 - 100);

    let response = world.ask(&reader, EvmApiMethod::GetBytes32, &key);
    assert_eq!(response, Response { result: last.to_vec(), data: vec![], gas: 100 });
    let response = world.ask(&other, EvmApiMethod::GetBytes32, &key);
    assert_eq!(response, Response { result: vec![0; 32], data: vec![], gas: 2_100 });
}

#[test]
fn static_programs_leave_storage() {
    let mut world = World::default();
    let address = Address::from([0xAA; 20]);
    world.account(address).storage.insert([7; 32], [1; 32]);
    let handler = StylusHandler::new([0xAA; 20], true);
    let mut data = 1_000_000u64.to_be_bytes().to_vec();
    data.extend([7; 32]);
    data.extend([2; 32]);
    let response = world.ask(&handler, EvmApiMethod::SetTrieSlots, &data);
    assert_eq!(response.result, Status::WriteProtection.to_bytes());
    assert_eq!(response.gas, 1_000_000);
    assert_eq!(world.slot(address, [7; 32]), [1; 32]);
}

#[test]
fn halted_callees_leave_no_output() {
    let mut setup = TestSetup::new();
    let multicall = setup.prepare_multicall(CallOperation::Call, setup.storage, None, vec![1]);
    let result = setup.world.transact(setup.multicall, &multicall);
    assert!(result.is_success());
    assert_eq!(result.output().unwrap().to_vec(), Vec::<u8>::new());
    assert!(matches!(setup.world.transact(setup.storage, &[1]), ExecutionResult::Halt));
}

#[test]
fn transient_reads_give_back_the_write() {
    let mut world = World::default();
    let writer = StylusHandler::new([0xAA; 20], false);
    let reader = StylusHandler::new([0xAA; 20], true);
    let other = StylusHandler::new([0xBB; 20], false);
    let mut data = [7; 32].to_vec();
    data.extend([2; 32]);
    let response = world.ask(&writer, EvmApiMethod::SetTransientBytes32, &data);
    assert_eq!(response, Response { result: vec![0], data: vec![], gas: 0 });
    let response = world.ask(&reader, EvmApiMethod::GetTransientBytes32, &[7; 32]);
    assert_eq!(response, Response { result: vec![2; 32], data: vec![], gas: 0 });
    let response = world.ask(&other, EvmApiMethod::GetTransientBytes32, &[7; 32]);
    assert_eq!(response, Response { result: vec![0; 32], data: vec![], gas: 0 });
}

#[test]
fn the_slot_that_exceeds_the_gas_is_stored() {
    let mut world = World::default();
    let handler = StylusHandler::new([0xAA; 20], false);
    let mut data = 30_000u64.to_be_bytes().to_vec();
    for word in [[1; 32], [11; 32], [2; 32], [12; 32], [3; 32], [13; 32]] {
        data.extend(word);
    }
    // The odd bytes at the end are never reached.
    data.extend([0; 5]);
    let response = world.ask(&handler, EvmApiMethod::SetTrieSlots, &data);
    assert_eq!(response, Response { result: vec![2], data: vec![], gas: 30_000 });
    let address = Address::from([0xAA; 20]);
    assert_eq!(world.slot(address, [1; 32]), [11; 32]);
    assert_eq!(world.slot(address, [2; 32]), [12; 32]);
    assert_eq!(world.slot(address, [3; 32]), [0; 32]);
}
