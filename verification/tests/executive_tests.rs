use ethexec::action_params::{ActionParams, ActionValue};
use ethexec::engine::{Engine, NullEngine};
use ethexec::env_info::EnvInfo;
use ethexec::error::ExecutionError;
use ethexec::evm::{Error, Evm};
use ethexec::executive::{
    contract_address, uses_fresh_stack, Executive, TransactOptions, MAX_VM_DEPTH_FOR_THREAD,
};
use ethexec::externalities::{
    BytesRef, ContractCreateResult, Externalities, MessageCallResult, OriginInfo, OutputPolicy,
};
use ethexec::gas::settle_gas;
use ethexec::hash::{Address, H256};
use ethexec::schedule::Schedule;
use ethexec::state::State;
use ethexec::substate::Substate;
use ethexec::trace::{
    Action as TraceAction, Call, CallResult, Create, CreateResult, ExecutiveTracer, NoopTracer,
    Res, Trace, Tracer,
};
use ethexec::transaction::{Action, SignedTransaction};
use ethexec::uint::{U256, U512};

fn hex(s: &str) -> Vec<u8> {
    let digits: Vec<u8> = s
        .bytes()
        .map(|c| match c {
            b'0'..=b'9' => c - b'0',
            b'a'..=b'f' => c - b'a' + 10,
            b'A'..=b'F' => c - b'A' + 10,
            _ => panic!("not a hex digit"),
        })
        .collect();
    digits.chunks(2).map(|pair| pair[0] * 16 + pair[1]).collect()
}

fn address(s: &str) -> Address {
    Address::from_bytes(&hex(s), 0)
}

fn u(x: u64) -> U256 {
    U256::from_u64(x)
}

fn word(bytes: &[u8]) -> U256 {
    let mut padded = vec![0u8; 32 - bytes.len()];
    padded.extend_from_slice(bytes);
    H256::from_bytes(&padded, 0).to_u256()
}

fn address_word(a: &Address) -> U256 {
    U256 { hi: a.hi as u128, lo: a.lo }
}

fn word_address(x: &U256) -> Address {
    Address { hi: (x.hi & 0xffff_ffff) as u32, lo: x.lo }
}

fn memory_gas(bytes: u128) -> u128 {
    let words = (bytes + 31) / 32;
    match words.checked_mul(words) {
        Some(square) => words.saturating_mul(3).saturating_add(square / 512),
        None => u128::MAX,
    }
}

/// A small interpreter: the instructions that the tests below need, at the
/// gas prices of the first release.
struct Interpreter;

struct Machine {
    gas: u128,
    stack: Vec<U256>,
    memory: Vec<u8>,
}

impl Machine {
    fn charge(&mut self, amount: u128) -> Result<(), Error> {
        if amount > self.gas {
            return Err(Error::OutOfGas);
        }
        self.gas -= amount;
        Ok(())
    }

    fn pop(&mut self, instruction: &'static str) -> Result<U256, Error> {
        match self.stack.pop() {
            Some(x) => Ok(x),
            None => Err(Error::StackUnderflow { instruction, wanted: 1, on_stack: 0 }),
        }
    }

    fn grow(&mut self, offset: &U256, size: &U256) -> Result<(), Error> {
        if size.is_zero() {
            return Ok(());
        }
        if offset.hi != 0 || size.hi != 0 {
            return Err(Error::OutOfGas);
        }
        let end = match offset.lo.checked_add(size.lo) {
            Some(end) => end,
            None => return Err(Error::OutOfGas),
        };
        let have = self.memory.len() as u128;
        if end > have {
            let cost = memory_gas(end).saturating_sub(memory_gas(have));
            self.charge(cost)?;
            let words = (end + 31) / 32;
            self.memory.resize((words * 32) as usize, 0);
        }
        Ok(())
    }
}

impl Evm for Interpreter {
    // Stands in proofs only: nothing calls it.
    fn run<T, E>(
        &self,
        _params: ActionParams,
        _ext: Externalities<'_, T, E, Self>,
    ) -> (Result<U256, Error>, Externalities<'_, T, E, Self>) {
        unreachable!()
    }

    // Taken on trust for an interpreter outside the library: the one below
    // hands its observer on and never asks it anything.
    fn lemma_observer_unseen<T1: Tracer, T2: Tracer, E: Engine>(
        &self,
        _first: ActionParams,
        _second: ActionParams,
        _one: Externalities<'_, T1, E, Self>,
        _other: Externalities<'_, T2, E, Self>,
    ) {
    }

    fn exec<T: Tracer, E: Engine>(
        &self,
        params: ActionParams,
        ext: &mut Externalities<'_, T, E, Self>,
    ) -> Result<U256, Error> {
        let code = params.code.clone().unwrap_or_default();
        let mut m = Machine { gas: params.gas.lo, stack: Vec::new(), memory: Vec::new() };
        let own = params.address;
        let mut pc = 0usize;
        while pc < code.len() {
            let op = code[pc];
            pc += 1;
            match op {
                0x00 => break,
                0x20 => {
                    let offset = m.pop("SHA3")?;
                    let size = m.pop("SHA3")?;
                    m.charge(30)?;
                    m.grow(&offset, &size)?;
                    m.charge(6 * ((size.lo + 31) / 32))?;
                    let from = offset.lo as usize;
                    let data = m.memory[from..from + size.lo as usize].to_vec();
                    m.stack.push(ethexec::hash::keccak(&data).to_u256());
                }
                0x31 => {
                    let who = m.pop("BALANCE")?;
                    m.charge(20)?;
                    m.stack.push(ext.balance(&word_address(&who)));
                }
                0x33 => {
                    m.charge(2)?;
                    m.stack.push(address_word(&params.sender));
                }
                0x39 => {
                    let to = m.pop("CODECOPY")?;
                    let from = m.pop("CODECOPY")?;
                    let size = m.pop("CODECOPY")?;
                    m.charge(3)?;
                    m.grow(&to, &size)?;
                    m.charge(3 * ((size.lo + 31) / 32))?;
                    for i in 0..size.lo as usize {
                        let at = from.lo as usize + i;
                        m.memory[to.lo as usize + i] = if at < code.len() { code[at] } else { 0 };
                    }
                }
                0x52 => {
                    let offset = m.pop("MSTORE")?;
                    let value = m.pop("MSTORE")?;
                    m.charge(3)?;
                    m.grow(&offset, &u(32))?;
                    let bytes = H256::from_u256(value).to_bytes();
                    let at = offset.lo as usize;
                    m.memory[at..at + 32].copy_from_slice(&bytes);
                }
                0x55 => {
                    let key = H256::from_u256(m.pop("SSTORE")?);
                    let value = H256::from_u256(m.pop("SSTORE")?);
                    let held = ext.storage_at(&key);
                    if held.is_zero() && !value.is_zero() {
                        m.charge(20000)?;
                    } else {
                        m.charge(5000)?;
                    }
                    if !held.is_zero() && value.is_zero() {
                        ext.inc_sstore_clears();
                    }
                    ext.set_storage(key, value);
                }
                0x60..=0x7f => {
                    let n = (op - 0x5f) as usize;
                    m.charge(3)?;
                    let mut bytes = vec![0u8; n];
                    for i in 0..n {
                        if pc + i < code.len() {
                            bytes[i] = code[pc + i];
                        }
                    }
                    pc += n;
                    m.stack.push(word(&bytes));
                }
                0x80 => {
                    m.charge(3)?;
                    let top = match m.stack.last() {
                        Some(x) => *x,
                        None => {
                            return Err(Error::StackUnderflow {
                                instruction: "DUP1",
                                wanted: 1,
                                on_stack: 0,
                            })
                        }
                    };
                    m.stack.push(top);
                }
                0xf0 => {
                    let value = m.pop("CREATE")?;
                    let offset = m.pop("CREATE")?;
                    let size = m.pop("CREATE")?;
                    m.charge(32000)?;
                    m.grow(&offset, &size)?;
                    let from = offset.lo as usize;
                    let init = m.memory[from..from + size.lo as usize].to_vec();
                    let can_create =
                        ext.balance(&own).ge(&value) && ext.depth() < ext.schedule().max_depth;
                    if !can_create {
                        m.stack.push(U256::zero());
                    } else {
                        let offered = U256::from_u128(m.gas);
                        m.gas = 0;
                        match ext.create(&offered, &value, &init) {
                            ContractCreateResult::Created(new, gas_left) => {
                                m.stack.push(address_word(&new));
                                m.gas = gas_left.lo;
                            }
                            ContractCreateResult::Failed => {
                                m.stack.push(U256::zero());
                            }
                        }
                    }
                }
                0xf1 => {
                    let offered = m.pop("CALL")?;
                    let to = word_address(&m.pop("CALL")?);
                    let value = m.pop("CALL")?;
                    let in_offset = m.pop("CALL")?;
                    let in_size = m.pop("CALL")?;
                    let out_offset = m.pop("CALL")?;
                    let out_size = m.pop("CALL")?;
                    m.charge(40)?;
                    if !value.is_zero() {
                        m.charge(9000)?;
                    }
                    m.grow(&in_offset, &in_size)?;
                    m.grow(&out_offset, &out_size)?;
                    if offered.hi != 0 {
                        return Err(Error::OutOfGas);
                    }
                    m.charge(offered.lo)?;
                    let can_call =
                        ext.balance(&own).ge(&value) && ext.depth() < ext.schedule().max_depth;
                    if !can_call {
                        m.gas += offered.lo;
                        m.stack.push(U256::zero());
                    } else {
                        let from = in_offset.lo as usize;
                        let input = m.memory[from..from + in_size.lo as usize].to_vec();
                        let mut output = BytesRef::Fixed(vec![0u8; out_size.lo as usize]);
                        let result =
                            ext.call(&offered, &own, &to, Some(value), &input, &to, &mut output);
                        let written = output.into_vec();
                        let at = out_offset.lo as usize;
                        m.memory[at..at + written.len()].copy_from_slice(&written);
                        match result {
                            MessageCallResult::Success(gas_left) => {
                                m.gas += gas_left.lo;
                                m.stack.push(U256::one());
                            }
                            MessageCallResult::Failed => {
                                m.stack.push(U256::zero());
                            }
                        }
                    }
                }
                0xf3 => {
                    let offset = m.pop("RETURN")?;
                    let size = m.pop("RETURN")?;
                    m.grow(&offset, &size)?;
                    let from = offset.lo as usize;
                    let data = m.memory[from..from + size.lo as usize].to_vec();
                    return ext.ret(&U256::from_u128(m.gas), &data);
                }
                0x40 => {
                    let number = m.pop("BLOCKHASH")?;
                    m.charge(20)?;
                    m.stack.push(ext.blockhash(&number).to_u256());
                }
                0xa0 => {
                    let offset = m.pop("LOG0")?;
                    let size = m.pop("LOG0")?;
                    m.charge(375)?;
                    m.grow(&offset, &size)?;
                    m.charge(8 * size.lo)?;
                    let from = offset.lo as usize;
                    let data = m.memory[from..from + size.lo as usize].to_vec();
                    ext.log(vec![], &data);
                }
                0xff => {
                    let to = word_address(&m.pop("SUICIDE")?);
                    ext.suicide(&to);
                    return Ok(U256::from_u128(m.gas));
                }
                0xfd => return Err(Error::Internal),
                _ => return Err(Error::BadInstruction { instruction: op }),
            }
        }
        Ok(U256::from_u128(m.gas))
    }
}

/// An engine for tests: the rule table of the first release with the depth
/// given, and one built-in contract, at address 4, that hands its input back
/// for 15 gas and 3 more for each 32 bytes.
struct TestEngine {
    schedule: Schedule,
}

impl TestEngine {
    fn new(max_depth: usize) -> TestEngine {
        let mut schedule = Schedule::new_frontier();
        schedule.max_depth = max_depth;
        TestEngine { schedule }
    }
}

fn identity_address() -> Address {
    Address { hi: 0, lo: 4 }
}

impl Engine for TestEngine {
    // The next four stand in proofs only: nothing calls them.
    fn schedule_of(&self, _info: &EnvInfo) -> Schedule {
        unreachable!()
    }

    fn builtin_at(&self, _address: Address) -> bool {
        unreachable!()
    }

    fn builtin_cost(&self, _address: Address, _input: vstd::seq::Seq<u8>) -> U256 {
        unreachable!()
    }

    fn builtin_result(&self, _address: Address, _input: vstd::seq::Seq<u8>) -> vstd::seq::Seq<u8> {
        unreachable!()
    }

    fn schedule(&self, _info: &EnvInfo) -> Schedule {
        self.schedule
    }

    fn is_builtin(&self, address: &Address) -> bool {
        *address == identity_address()
    }

    fn cost_of_builtin(&self, _address: &Address, input: &[u8]) -> U256 {
        u(15 + 3 * ((input.len() as u64 + 31) / 32))
    }

    fn execute_builtin(&self, _address: &Address, input: &[u8]) -> Vec<u8> {
        input.to_vec()
    }
}

fn new_params(sender: Address, to: Address, gas: u64, code: Vec<u8>, value: u64) -> ActionParams {
    let mut params = ActionParams::default();
    params.address = to;
    params.sender = sender;
    params.origin = sender;
    params.gas = u(gas);
    params.code = Some(code);
    params.value = ActionValue::Transfer(u(value));
    params
}

#[test]
fn test_contract_address() {
    let address_ = address("0f572e5295c57f15886f9b263e2f6d2d6c7b5ec6");
    let expected_address = address("3f09c73a5ed19289fb9bdc72f1742566df146f56");
    assert_eq!(expected_address, contract_address(&address_, &U256::from_u64(88)));
}

#[test]
fn contract_address_depends_on_sender_and_nonce_alone() {
    let sender = address("cd1722f3947def4cf144679da39c4c32bdc35681");
    let first = contract_address(&sender, &u(7));
    let second = contract_address(&sender, &u(7));
    assert_eq!(first, second);
    assert_ne!(first, contract_address(&sender, &u(8)));
    assert_eq!(
        contract_address(&sender, &U256::zero()),
        address("b010143a42d5980c7e5ef0e4a4416dc098a4fed3")
    );
}

#[test]
fn test_sender_balance() {
    let sender = address("0f572e5295c57f15886f9b263e2f6d2d6c7b5ec6");
    let contract = contract_address(&sender, &U256::zero());
    let params = new_params(sender, contract, 100_000, hex("3331600055"), 0x7);
    let mut state = State::new();
    state.add_balance(&sender, &u(0x100));
    let info = EnvInfo::default();
    let engine = TestEngine::new(0);
    let mut substate = Substate::new();

    let gas_left = {
        let mut ex = Executive::new(&mut state, &info, &engine, &Interpreter);
        ex.create(params, &mut substate, &mut NoopTracer).unwrap()
    };

    assert_eq!(gas_left, u(79_975));
    assert_eq!(state.storage_at(&contract, &H256::zero()), H256::from_u256(u(0xf9)));
    assert_eq!(state.balance(&sender), u(0xf9));
    assert_eq!(state.balance(&contract), u(0x7));
    assert_eq!(substate.contracts_created.len(), 0);
}

const CREATE_AND_STORE: &str =
    "7c601080600c6000396000f3006000355415600957005b60203560003555600052601d60036017f0600055";

#[test]
fn test_create_contract_out_of_depth() {
    let sender = address("cd1722f3947def4cf144679da39c4c32bdc35681");
    let contract = contract_address(&sender, &U256::zero());
    let params = new_params(sender, contract, 100_000, hex(CREATE_AND_STORE), 100);
    let mut state = State::new();
    state.add_balance(&sender, &u(100));
    let info = EnvInfo::default();
    let engine = TestEngine::new(0);
    let mut substate = Substate::new();

    let gas_left = {
        let mut ex = Executive::new(&mut state, &info, &engine, &Interpreter);
        ex.create(params, &mut substate, &mut NoopTracer).unwrap()
    };

    assert_eq!(gas_left, u(62_976));
    assert_eq!(substate.contracts_created.len(), 0);
}

#[test]
fn test_call_to_create() {
    let sender = address("cd1722f3947def4cf144679da39c4c32bdc35681");
    let contract = contract_address(&sender, &U256::zero());
    let mut params = new_params(sender, contract, 100_000, hex(CREATE_AND_STORE), 100);
    params.code_address = contract;
    let mut state = State::new();
    state.add_balance(&sender, &u(100));
    let info = EnvInfo::new();
    let engine = TestEngine::new(5);
    let mut substate = Substate::new();
    let mut tracer = ExecutiveTracer::default();

    let gas_left = {
        let mut ex = Executive::new(&mut state, &info, &engine, &Interpreter);
        let mut output = BytesRef::Fixed(vec![]);
        ex.call(params, &mut substate, &mut output, &mut tracer).unwrap()
    };

    let expected_trace = vec![Trace {
        depth: 0,
        action: TraceAction::Call(Call {
            from: address("cd1722f3947def4cf144679da39c4c32bdc35681"),
            to: address("b010143a42d5980c7e5ef0e4a4416dc098a4fed3"),
            value: u(100),
            gas: u(100000),
            input: vec![],
        }),
        result: Res::Call(CallResult { gas_used: u(55_248), output: vec![] }),
        subs: vec![Trace {
            depth: 1,
            action: TraceAction::Create(Create {
                from: address("b010143a42d5980c7e5ef0e4a4416dc098a4fed3"),
                value: u(23),
                gas: u(67979),
                init: vec![
                    96, 16, 128, 96, 12, 96, 0, 57, 96, 0, 243, 0, 96, 0, 53, 84, 21, 96, 9, 87, 0,
                    91, 96, 32, 53, 96, 0, 53, 85,
                ],
            }),
            result: Res::Create(CreateResult {
                gas_used: u(3224),
                address: address("c6d80f262ae5e0f164e5fde365044d7ada2bfa34"),
                code: vec![96, 0, 53, 84, 21, 96, 9, 87, 0, 91, 96, 32, 53, 96, 0, 53],
            }),
            subs: vec![],
        }],
    }];
    assert_eq!(tracer.traces(), expected_trace);
    assert_eq!(gas_left, u(44_752));
}

#[test]
fn test_create_contract() {
    let code = hex("601080600c6000396000f3006000355415600957005b60203560003555");
    let sender = address("cd1722f3947def4cf144679da39c4c32bdc35681");
    let contract = contract_address(&sender, &U256::zero());
    let params = new_params(sender, contract, 100_000, code, 100);
    let mut state = State::new();
    state.add_balance(&sender, &u(100));
    let info = EnvInfo::new();
    let engine = TestEngine::new(5);
    let mut substate = Substate::new();
    let mut tracer = ExecutiveTracer::default();

    let gas_left = {
        let mut ex = Executive::new(&mut state, &info, &engine, &Interpreter);
        ex.create(params, &mut substate, &mut tracer).unwrap()
    };

    let expected_trace = vec![Trace {
        depth: 0,
        action: TraceAction::Create(Create {
            from: sender,
            value: u(100),
            gas: u(100_000),
            init: vec![
                96, 16, 128, 96, 12, 96, 0, 57, 96, 0, 243, 0, 96, 0, 53, 84, 21, 96, 9, 87, 0, 91,
                96, 32, 53, 96, 0, 53, 85,
            ],
        }),
        result: Res::Create(CreateResult {
            gas_used: u(3224),
            address: contract,
            code: vec![96, 0, 53, 84, 21, 96, 9, 87, 0, 91, 96, 32, 53, 96, 0, 53],
        }),
        subs: vec![],
    }];

    assert_eq!(tracer.traces(), expected_trace);
    assert_eq!(gas_left, u(96_776));
}

#[test]
fn test_create_contract_value_too_high() {
    let code = hex(
        "7c601080600c6000396000f3006000355415600957005b60203560003555600052601d600360e6f0600055",
    );
    let sender = address("cd1722f3947def4cf144679da39c4c32bdc35681");
    let contract = contract_address(&sender, &U256::zero());
    let params = new_params(sender, contract, 100_000, code, 100);
    let mut state = State::new();
    state.add_balance(&sender, &u(100));
    let info = EnvInfo::default();
    let engine = TestEngine::new(0);
    let mut substate = Substate::new();

    let gas_left = {
        let mut ex = Executive::new(&mut state, &info, &engine, &Interpreter);
        ex.create(params, &mut substate, &mut NoopTracer).unwrap()
    };

    assert_eq!(gas_left, u(62_976));
    assert_eq!(substate.contracts_created.len(), 0);
}

#[test]
fn test_create_contract_without_max_depth() {
    let code =
        hex("7c601080600c6000396000f3006000355415600957005b60203560003555600052601d60036017f0");
    let sender = address("cd1722f3947def4cf144679da39c4c32bdc35681");
    let contract = contract_address(&sender, &U256::zero());
    let next_address = contract_address(&contract, &U256::zero());
    let params = new_params(sender, contract, 100_000, code, 100);
    let mut state = State::new();
    state.add_balance(&sender, &u(100));
    let info = EnvInfo::new();
    let engine = TestEngine::new(1024);
    let mut substate = Substate::new();

    {
        let mut ex = Executive::new(&mut state, &info, &engine, &Interpreter);
        ex.create(params, &mut substate, &mut NoopTracer).unwrap();
    }

    assert_eq!(substate.contracts_created.len(), 1);
    assert_eq!(substate.contracts_created[0], next_address);
}

fn creation(value: u64, gas: u64, gas_price: u64, nonce: u64, sender: Option<Address>) -> SignedTransaction {
    SignedTransaction {
        action: Action::Create,
        value: u(value),
        data: hex("3331600055"),
        gas: u(gas),
        gas_price: u(gas_price),
        nonce: u(nonce),
        sender,
    }
}

#[test]
fn a_creation_is_settled_with_the_sender_and_the_author() {
    let sender = address("0f572e5295c57f15886f9b263e2f6d2d6c7b5ec6");
    let t = creation(17, 100_000, 0, 0, Some(sender));
    let contract = contract_address(&sender, &U256::zero());
    let mut state = State::new();
    state.add_balance(&sender, &u(18));
    let mut info = EnvInfo::new();
    info.gas_limit = u(100_000);
    let engine = TestEngine::new(0);

    let executed = {
        let mut ex = Executive::new(&mut state, &info, &engine, &Interpreter);
        let opts = TransactOptions { check_nonce: true, tracing: false };
        ex.transact(&t, opts).unwrap()
    };

    assert_eq!(executed.gas, u(100_000));
    assert_eq!(executed.gas_used, u(41_301));
    assert_eq!(executed.refunded, u(0));
    assert_eq!(executed.cumulative_gas_used, u(41_301));
    assert_eq!(executed.logs.len(), 0);
    assert_eq!(executed.contracts_created.len(), 0);
    assert!(executed.trace.is_none());
    assert_eq!(state.balance(&sender), u(1));
    assert_eq!(state.balance(&contract), u(17));
    assert_eq!(state.nonce(&sender), u(1));
    assert_eq!(state.storage_at(&contract, &H256::zero()), H256::from_u256(u(1)));
}

#[test]
fn test_transact_invalid_sender() {
    let t = creation(17, 100_000, 0, 0, None);
    let mut state = State::new();
    let mut info = EnvInfo::new();
    info.gas_limit = u(100_000);
    let engine = TestEngine::new(0);

    let res = {
        let mut ex = Executive::new(&mut state, &info, &engine, &Interpreter);
        let opts = TransactOptions { check_nonce: true, tracing: false };
        ex.transact(&t, opts)
    };

    match res {
        Err(ExecutionError::TransactionMalformed(_)) => (),
        _ => assert!(false, "Expected an invalid transaction error."),
    }
}

#[test]
fn test_transact_invalid_nonce() {
    let sender = address("0f572e5295c57f15886f9b263e2f6d2d6c7b5ec6");
    let t = creation(17, 100_000, 0, 1, Some(sender));
    let mut state = State::new();
    state.add_balance(&sender, &u(17));
    let mut info = EnvInfo::new();
    info.gas_limit = u(100_000);
    let engine = TestEngine::new(0);

    let res = {
        let mut ex = Executive::new(&mut state, &info, &engine, &Interpreter);
        let opts = TransactOptions { check_nonce: true, tracing: false };
        ex.transact(&t, opts)
    };

    match res {
        Err(ExecutionError::InvalidNonce { expected, got })
            if expected == U256::zero() && got == U256::one() => {}
        _ => assert!(false, "Expected invalid nonce error."),
    }
    assert_eq!(state.nonce(&sender), u(0));
    assert_eq!(state.balance(&sender), u(17));
}

#[test]
fn test_transact_gas_limit_reached() {
    let sender = address("0f572e5295c57f15886f9b263e2f6d2d6c7b5ec6");
    let t = creation(17, 80_001, 0, 0, Some(sender));
    let mut state = State::new();
    state.add_balance(&sender, &u(17));
    let mut info = EnvInfo::new();
    info.gas_used = u(20_000);
    info.gas_limit = u(100_000);
    let engine = TestEngine::new(0);

    let res = {
        let mut ex = Executive::new(&mut state, &info, &engine, &Interpreter);
        let opts = TransactOptions { check_nonce: true, tracing: false };
        ex.transact(&t, opts)
    };

    match res {
        Err(ExecutionError::BlockGasLimitReached { gas_limit, gas_used, gas })
            if gas_limit == u(100_000) && gas_used == u(20_000) && gas == u(80_001) => {}
        _ => assert!(false, "Expected block gas limit error."),
    }
}

#[test]
fn test_not_enough_cash() {
    let sender = address("0f572e5295c57f15886f9b263e2f6d2d6c7b5ec6");
    let t = creation(18, 100_000, 1, 0, Some(sender));
    let mut state = State::new();
    state.add_balance(&sender, &u(100_017));
    let mut info = EnvInfo::new();
    info.gas_limit = u(100_000);
    let engine = TestEngine::new(0);

    let res = {
        let mut ex = Executive::new(&mut state, &info, &engine, &Interpreter);
        let opts = TransactOptions { check_nonce: true, tracing: false };
        ex.transact(&t, opts)
    };

    match res {
        Err(ExecutionError::NotEnoughCash { required, got })
            if required == U512::from_u64(100_018) && got == U512::from_u64(100_017) => {}
        _ => assert!(false, "Expected not enough cash error. {:?}", res.err()),
    }
    assert_eq!(state.balance(&sender), u(100_017));
    assert_eq!(state.nonce(&sender), u(0));
    assert!(!state.has_account(&contract_address(&sender, &U256::zero())));
}

#[test]
fn test_not_enough_base_gas() {
    let sender = address("0f572e5295c57f15886f9b263e2f6d2d6c7b5ec6");
    let t = creation(0, 21_275, 0, 0, Some(sender));
    let mut state = State::new();
    let mut info = EnvInfo::new();
    info.gas_limit = u(100_000);
    let engine = TestEngine::new(0);

    let res = {
        let mut ex = Executive::new(&mut state, &info, &engine, &Interpreter);
        let opts = TransactOptions { check_nonce: true, tracing: false };
        ex.transact(&t, opts)
    };

    match res {
        Err(ExecutionError::NotEnoughBaseGas { required, got })
            if required == u(21_276) && got == u(21_275) => {}
        _ => assert!(false, "Expected not enough base gas error."),
    }
}

#[test]
fn test_sha3() {
    let code = hex("6064640fffffffff20600055");
    let sender = address("0f572e5295c57f15886f9b263e2f6d2d6c7b5ec6");
    let contract = contract_address(&sender, &U256::zero());
    let mut params = new_params(sender, contract, 0x0186a0, code, 0);
    params.value = ActionValue::Transfer(word(&hex("0de0b6b3a7640000")));
    let mut state = State::new();
    state.add_balance(&sender, &word(&hex("152d02c7e14af6800000")));
    let info = EnvInfo::default();
    let engine = TestEngine::new(0);
    let mut substate = Substate::new();

    let result = {
        let mut ex = Executive::new(&mut state, &info, &engine, &Interpreter);
        ex.create(params, &mut substate, &mut NoopTracer)
    };

    match result {
        Err(_) => {}
        _ => panic!("Expected OutOfGas"),
    }
}

#[test]
fn internal_fault_fails_the_transaction() {
    let sender = address("0f572e5295c57f15886f9b263e2f6d2d6c7b5ec6");
    let mut t = creation(0, 100_000, 0, 0, Some(sender));
    t.data = vec![0xfd];
    let mut state = State::new();
    let mut info = EnvInfo::new();
    info.gas_limit = u(100_000);
    let engine = TestEngine::new(0);
    let res = {
        let mut ex = Executive::new(&mut state, &info, &engine, &Interpreter);
        ex.transact(&t, TransactOptions { check_nonce: true, tracing: false })
    };
    assert!(matches!(res, Err(ExecutionError::Internal)));
}

#[test]
fn failed_execution_uses_all_gas() {
    let sender = address("0f572e5295c57f15886f9b263e2f6d2d6c7b5ec6");
    let author = address("00000000000000000000000000000000000000aa");
    let mut t = creation(5, 50_000, 2, 0, Some(sender));
    t.data = vec![0xfe];
    let mut state = State::new();
    state.add_balance(&sender, &u(200_000));
    let mut info = EnvInfo::new();
    info.gas_limit = u(100_000);
    info.gas_used = u(1_000);
    info.author = author;
    let engine = TestEngine::new(0);
    let executed = {
        let mut ex = Executive::new(&mut state, &info, &engine, &Interpreter);
        ex.transact(&t, TransactOptions { check_nonce: true, tracing: true }).unwrap()
    };
    assert_eq!(executed.gas, u(50_000));
    assert_eq!(executed.gas_used, u(50_000));
    assert_eq!(executed.refunded, u(0));
    assert_eq!(executed.gas_used.add(executed.refunded), executed.gas);
    assert_eq!(executed.cumulative_gas_used, u(51_000));
    assert_eq!(executed.logs.len(), 0);
    assert_eq!(executed.contracts_created.len(), 0);
    let trace = executed.trace.unwrap();
    assert_eq!(trace.depth, 0);
    assert_eq!(trace.result, Res::FailedCreate);
    assert_eq!(state.balance(&sender), u(100_000));
    assert_eq!(state.balance(&author), u(100_000));
    assert_eq!(state.nonce(&sender), u(1));
    assert!(!state.has_account(&contract_address(&sender, &U256::zero())));
}

#[test]
fn plain_transfer_moves_value_and_pays_the_author() {
    let sender = address("0f572e5295c57f15886f9b263e2f6d2d6c7b5ec6");
    let receiver = address("00000000000000000000000000000000000000bb");
    let author = address("00000000000000000000000000000000000000aa");
    let t = SignedTransaction {
        action: Action::Call(receiver),
        value: u(1_000),
        data: vec![],
        gas: u(30_000),
        gas_price: u(3),
        nonce: u(0),
        sender: Some(sender),
    };
    let mut state = State::new();
    state.add_balance(&sender, &u(1_000_000));
    let mut info = EnvInfo::new();
    info.gas_limit = u(100_000);
    info.author = author;
    let engine = TestEngine::new(0);
    let executed = {
        let mut ex = Executive::new(&mut state, &info, &engine, &Interpreter);
        ex.transact(&t, TransactOptions { check_nonce: true, tracing: true }).unwrap()
    };
    assert_eq!(executed.gas_used, u(21_000));
    assert_eq!(executed.refunded, u(0));
    assert_eq!(executed.cumulative_gas_used, u(21_000));
    assert_eq!(executed.output, Vec::<u8>::new());
    assert_eq!(state.balance(&receiver), u(1_000));
    assert_eq!(state.balance(&author), u(63_000));
    assert_eq!(state.balance(&sender), u(1_000_000 - 1_000 - 63_000));
    let trace = executed.trace.unwrap();
    assert_eq!(
        trace,
        Trace {
            depth: 0,
            action: TraceAction::Call(Call {
                from: sender,
                to: receiver,
                value: u(1_000),
                gas: u(9_000),
                input: vec![],
            }),
            result: Res::Call(CallResult { gas_used: u(0), output: vec![] }),
            subs: vec![],
        }
    );
}

#[test]
fn reverting_call_leaves_the_state_as_it_was() {
    let sender = address("cd1722f3947def4cf144679da39c4c32bdc35681");
    let receiver = address("00000000000000000000000000000000000000bb");
    let mut state = State::new();
    state.add_balance(&sender, &u(500));
    state.add_balance(&receiver, &u(9));
    state.set_storage(&receiver, H256::zero(), H256::from_u256(u(77)));
    let info = EnvInfo::new();
    let engine = TestEngine::new(5);
    let mut substate = Substate::new();
    // One slot is written, then a byte that is no instruction stops the code.
    let mut params = new_params(sender, receiver, 100_000, hex("6001600055fe"), 100);
    params.code_address = receiver;
    let result = {
        let mut ex = Executive::new(&mut state, &info, &engine, &Interpreter);
        let mut output = BytesRef::Flexible(vec![]);
        ex.call(params, &mut substate, &mut output, &mut NoopTracer)
    };
    assert_eq!(result, Err(Error::BadInstruction { instruction: 0xfe }));
    assert_eq!(state.balance(&sender), u(500));
    assert_eq!(state.balance(&receiver), u(9));
    assert_eq!(state.storage_at(&receiver, &H256::zero()), H256::from_u256(u(77)));
    assert_eq!(substate.logs.len(), 0);
    assert_eq!(substate.suicides.len(), 0);
}

#[test]
fn call_without_code_moves_the_value_and_keeps_the_gas() {
    let sender = address("cd1722f3947def4cf144679da39c4c32bdc35681");
    let receiver = address("00000000000000000000000000000000000000bb");
    let mut state = State::new();
    state.add_balance(&sender, &u(500));
    let info = EnvInfo::new();
    let engine = TestEngine::new(5);
    let mut substate = Substate::new();
    let mut params = new_params(sender, receiver, 1_234, vec![], 100);
    params.code = None;
    params.code_address = receiver;
    let mut tracer = ExecutiveTracer::new();
    let result = {
        let mut ex = Executive::new(&mut state, &info, &engine, &Interpreter);
        let mut output = BytesRef::Flexible(vec![]);
        ex.call(params, &mut substate, &mut output, &mut tracer)
    };
    assert_eq!(result, Ok(u(1_234)));
    assert_eq!(state.balance(&sender), u(400));
    assert_eq!(state.balance(&receiver), u(100));
    let traces = tracer.traces();
    assert_eq!(traces.len(), 1);
    assert_eq!(traces[0].result, Res::Call(CallResult { gas_used: u(0), output: vec![] }));
}

#[test]
fn builtin_runs_where_the_gas_pays_for_it() {
    let sender = address("cd1722f3947def4cf144679da39c4c32bdc35681");
    let mut state = State::new();
    state.add_balance(&sender, &u(500));
    let info = EnvInfo::new();
    let engine = TestEngine::new(5);
    let mut substate = Substate::new();
    let mut params = new_params(sender, identity_address(), 100, vec![], 0);
    params.code = None;
    params.code_address = identity_address();
    params.data = Some(vec![1, 2, 3, 4, 5]);
    let mut tracer = ExecutiveTracer::new();
    let mut output = BytesRef::Fixed(vec![9, 9, 9]);
    let result = {
        let mut ex = Executive::new(&mut state, &info, &engine, &Interpreter);
        ex.call(params, &mut substate, &mut output, &mut tracer)
    };
    assert_eq!(result, Ok(u(100 - 18)));
    assert_eq!(output, BytesRef::Fixed(vec![1, 2, 3]));
    let traces = tracer.traces();
    assert_eq!(traces.len(), 1);
    assert_eq!(traces[0].result, Res::Call(CallResult { gas_used: u(18), output: vec![1, 2, 3] }));
}

#[test]
fn builtin_fails_for_want_of_gas_and_changes_nothing() {
    let sender = address("cd1722f3947def4cf144679da39c4c32bdc35681");
    let mut state = State::new();
    state.add_balance(&sender, &u(500));
    let info = EnvInfo::new();
    let engine = TestEngine::new(5);
    let mut substate = Substate::new();
    let mut params = new_params(sender, identity_address(), 17, vec![], 50);
    params.code = None;
    params.code_address = identity_address();
    params.data = Some(vec![1, 2, 3, 4, 5]);
    let mut tracer = ExecutiveTracer::new();
    let mut output = BytesRef::Fixed(vec![9, 9, 9]);
    let result = {
        let mut ex = Executive::new(&mut state, &info, &engine, &Interpreter);
        ex.call(params, &mut substate, &mut output, &mut tracer)
    };
    assert_eq!(result, Err(Error::OutOfGas));
    assert_eq!(output, BytesRef::Fixed(vec![9, 9, 9]));
    assert_eq!(state.balance(&sender), u(500));
    assert_eq!(state.balance(&identity_address()), u(0));
    let traces = tracer.traces();
    assert_eq!(traces.len(), 1);
    assert_eq!(traces[0].result, Res::FailedCall);
}

#[test]
fn nested_builtin_call_is_not_traced() {
    let sender = address("cd1722f3947def4cf144679da39c4c32bdc35681");
    let mut state = State::new();
    state.add_balance(&sender, &u(500));
    let info = EnvInfo::new();
    let engine = TestEngine::new(5);
    let mut substate = Substate::new();
    let mut params = new_params(sender, identity_address(), 100, vec![], 0);
    params.code = None;
    params.code_address = identity_address();
    let mut tracer = ExecutiveTracer::new();
    let mut output = BytesRef::Flexible(vec![]);
    let result = {
        let mut ex = Executive::from_parent(&mut state, &info, &engine, &Interpreter, 0);
        ex.call(params, &mut substate, &mut output, &mut tracer)
    };
    assert_eq!(result, Ok(u(85)));
    assert_eq!(tracer.traces().len(), 0);
}

#[test]
fn nested_builtin_call_that_fails_is_not_traced() {
    let sender = address("cd1722f3947def4cf144679da39c4c32bdc35681");
    let mut state = State::new();
    state.add_balance(&sender, &u(500));
    let info = EnvInfo::new();
    let engine = TestEngine::new(5);
    let mut substate = Substate::new();
    let mut params = new_params(sender, identity_address(), 17, vec![], 50);
    params.code = None;
    params.code_address = identity_address();
    params.data = Some(vec![1, 2, 3, 4, 5]);
    let mut tracer = ExecutiveTracer::new();
    let mut output = BytesRef::Fixed(vec![9, 9, 9]);
    let result = {
        let mut ex = Executive::from_parent(&mut state, &info, &engine, &Interpreter, 0);
        ex.call(params, &mut substate, &mut output, &mut tracer)
    };
    assert_eq!(result, Err(Error::OutOfGas));
    assert_eq!(output, BytesRef::Fixed(vec![9, 9, 9]));
    assert_eq!(state.balance(&sender), u(500));
    assert_eq!(state.balance(&identity_address()), u(0));
    assert_eq!(tracer.traces().len(), 0);
}

#[test]
fn fresh_stack_every_sixty_four_levels() {
    assert_eq!(MAX_VM_DEPTH_FOR_THREAD, 64);
    assert!(!uses_fresh_stack(0));
    assert!(!uses_fresh_stack(62));
    assert!(uses_fresh_stack(63));
    assert!(!uses_fresh_stack(64));
    assert!(uses_fresh_stack(127));
    assert!(uses_fresh_stack(usize::MAX));
}

fn create_at_depth(parent_depth: usize) -> (U256, U256, U256, H256) {
    let sender = address("0f572e5295c57f15886f9b263e2f6d2d6c7b5ec6");
    let contract = contract_address(&sender, &U256::zero());
    let params = new_params(sender, contract, 100_000, hex("3331600055"), 0x7);
    let mut state = State::new();
    state.add_balance(&sender, &u(0x100));
    let info = EnvInfo::new();
    let engine = TestEngine::new(1024);
    let mut substate = Substate::new();
    let gas_left = {
        let mut ex = Executive::from_parent(&mut state, &info, &engine, &Interpreter, parent_depth);
        ex.create(params, &mut substate, &mut NoopTracer).unwrap()
    };
    (
        gas_left,
        state.balance(&sender),
        state.balance(&contract),
        state.storage_at(&contract, &H256::zero()),
    )
}

#[test]
fn the_stack_that_runs_the_code_does_not_show() {
    // At depth 62 the interpreter runs where it is called, at depth 63 on a
    // stack of its own.
    let inline = create_at_depth(61);
    let isolated = create_at_depth(62);
    assert_eq!(inline, isolated);
    assert_eq!(isolated.0, u(79_975));
    assert_eq!(isolated.1, u(0xf9));
    assert_eq!(isolated.2, u(0x7));
    assert_eq!(isolated.3, H256::from_u256(u(0xf9)));
}

#[test]
fn tracing_does_not_change_what_is_done() {
    let sender = address("cd1722f3947def4cf144679da39c4c32bdc35681");
    let contract = contract_address(&sender, &U256::zero());
    let run = |tracing: bool| {
        let mut state = State::new();
        state.add_balance(&sender, &u(100));
        let info = EnvInfo::new();
        let engine = TestEngine::new(5);
        let mut substate = Substate::new();
        let mut params = new_params(sender, contract, 100_000, hex(CREATE_AND_STORE), 100);
        params.code_address = contract;
        let mut output = BytesRef::Flexible(vec![]);
        let gas_left = {
            let mut ex = Executive::new(&mut state, &info, &engine, &Interpreter);
            if tracing {
                ex.call(params, &mut substate, &mut output, &mut ExecutiveTracer::new())
            } else {
                ex.call(params, &mut substate, &mut output, &mut NoopTracer)
            }
        };
        (gas_left, state.balance(&contract), substate.contracts_created.clone())
    };
    assert_eq!(run(true), run(false));
    assert_eq!(run(false).0, Ok(u(44_752)));
}

#[test]
fn a_transaction_does_the_same_traced_or_not() {
    let sender = address("0f572e5295c57f15886f9b263e2f6d2d6c7b5ec6");
    let contract = contract_address(&sender, &U256::zero());
    let run = |tracing: bool| {
        let t = creation(17, 100_000, 1, 0, Some(sender));
        let mut state = State::new();
        state.add_balance(&sender, &u(200_000));
        let mut info = EnvInfo::new();
        info.gas_limit = u(100_000);
        let engine = TestEngine::new(1024);
        let executed = {
            let mut ex = Executive::new(&mut state, &info, &engine, &Interpreter);
            ex.transact(&t, TransactOptions { check_nonce: true, tracing }).unwrap()
        };
        assert_eq!(executed.trace.is_some(), tracing);
        let logs: Vec<(Address, Vec<H256>, Vec<u8>)> = executed
            .logs
            .iter()
            .map(|log| (log.address, log.topics.clone(), log.data.clone()))
            .collect();
        (
            (executed.gas, executed.gas_used, executed.refunded, executed.cumulative_gas_used),
            (logs, executed.contracts_created.clone(), executed.output.clone()),
            (state.balance(&sender), state.nonce(&sender), state.balance(&contract)),
            state.storage_at(&contract, &H256::zero()),
        )
    };
    let traced = run(true);
    assert_eq!(traced, run(false));
    assert_eq!((traced.0).0, u(100_000));
    assert_eq!((traced.0).1, u(41_301));
    assert_eq!((traced.2).1, u(1));
    assert_eq!((traced.2).2, u(17));
}

#[test]
fn settlement_gives_back_the_bound_or_half_of_the_gas_used() {
    let schedule = Schedule::new_frontier();
    // One slot cleared: 15000 would be given back, but half of the 20025
    // used is less.
    let capped = settle_gas(u(100_000), u(79_975), &schedule, u(1), 0);
    assert_eq!(capped.refunded, u(10_012));
    assert_eq!(capped.gas_left, u(89_987));
    assert_eq!(capped.gas_used, u(10_013));
    // One account destroyed and two slots cleared, with gas enough used.
    let full = settle_gas(u(200_000), u(50_000), &schedule, u(2), 1);
    assert_eq!(full.refunded, u(54_000));
    assert_eq!(full.gas_left, u(104_000));
    assert_eq!(full.gas_used, u(96_000));
    // Nothing to give back.
    let none = settle_gas(u(100_000), u(79_975), &schedule, u(0), 0);
    assert_eq!(none.refunded, u(0));
    assert_eq!(none.gas_used, u(20_025));
    // A count of cleared slots beyond all measure still gives back half.
    let huge = settle_gas(u(100_000), u(0), &schedule, U256::max_value(), usize::MAX);
    assert_eq!(huge.refunded, u(50_000));
    assert_eq!(huge.gas_used.add(huge.refunded), u(100_000));
}

#[test]
fn a_buffer_of_fixed_length_keeps_its_length() {
    let mut fixed = BytesRef::Fixed(vec![1, 2, 3, 4]);
    fixed.write(&[9, 8]);
    assert_eq!(fixed, BytesRef::Fixed(vec![9, 8, 3, 4]));
    fixed.write(&[7, 7, 7, 7, 7, 7]);
    assert_eq!(fixed, BytesRef::Fixed(vec![7, 7, 7, 7]));
    let mut flexible = BytesRef::Flexible(vec![1, 2, 3, 4]);
    flexible.write(&[9, 8]);
    assert_eq!(flexible.to_vec(), vec![9, 8]);
}

#[test]
fn null_engine_has_no_builtin() {
    let engine = NullEngine::new(Schedule::new_homestead());
    assert!(!engine.is_builtin(&identity_address()));
    assert_eq!(engine.schedule(&EnvInfo::new()).tx_create_gas, 53_000);
    assert!(engine.schedule(&EnvInfo::new()).have_delegate_call);
    assert_eq!(Schedule::new_frontier().tx_create_gas, 21_000);
}

fn call_of(sender: Address, to: Address, gas: u64, gas_price: u64, value: u64) -> SignedTransaction {
    SignedTransaction {
        action: Action::Call(to),
        value: u(value),
        data: vec![],
        gas: u(gas),
        gas_price: u(gas_price),
        nonce: u(0),
        sender: Some(sender),
    }
}

fn run_call(state: &mut State, info: &EnvInfo, t: &SignedTransaction) -> ethexec::executed::Executed {
    let engine = TestEngine::new(5);
    let mut ex = Executive::new(state, info, &engine, &Interpreter);
    ex.transact(t, TransactOptions { check_nonce: true, tracing: false }).unwrap()
}

#[test]
fn a_destroyed_account_is_removed_and_its_balance_moves() {
    let sender = address("0f572e5295c57f15886f9b263e2f6d2d6c7b5ec6");
    let contract = address("00000000000000000000000000000000000000c1");
    let heir = address("00000000000000000000000000000000000000c2");
    let mut state = State::new();
    state.add_balance(&sender, &u(1_000_000));
    state.add_balance(&contract, &u(50));
    // PUSH1 0xc2, SUICIDE
    state.init_code(&contract, hex("60c2ff"));
    let mut info = EnvInfo::new();
    info.gas_limit = u(1_000_000);
    let executed = run_call(&mut state, &info, &call_of(sender, contract, 100_000, 1, 7));
    assert!(!state.has_account(&contract));
    assert_eq!(state.balance(&heir), u(57));
    // 21000 for the inclusion and 3 for the one instruction; half of that
    // comes back, as the 24000 for the destroyed account are more.
    assert_eq!(executed.refunded, u(10_501));
    assert_eq!(executed.gas_used, u(10_502));
    assert_eq!(state.balance(&sender), u(1_000_000 - 7 - 10_502));
}

#[test]
fn an_account_that_names_itself_as_heir_loses_its_balance() {
    let sender = address("0f572e5295c57f15886f9b263e2f6d2d6c7b5ec6");
    let contract = address("00000000000000000000000000000000000000c1");
    let mut state = State::new();
    state.add_balance(&sender, &u(1_000_000));
    state.add_balance(&contract, &u(50));
    state.init_code(&contract, hex("60c1ff"));
    let mut info = EnvInfo::new();
    info.gas_limit = u(1_000_000);
    run_call(&mut state, &info, &call_of(sender, contract, 100_000, 0, 0));
    assert!(!state.has_account(&contract));
    assert_eq!(state.balance(&contract), u(0));
}

#[test]
fn events_are_handed_on_with_the_record() {
    let sender = address("0f572e5295c57f15886f9b263e2f6d2d6c7b5ec6");
    let contract = address("00000000000000000000000000000000000000c1");
    let mut state = State::new();
    state.add_balance(&sender, &u(1_000_000));
    // PUSH1 0xab, PUSH1 0, MSTORE, PUSH1 1, PUSH1 31, LOG0
    state.init_code(&contract, hex("60ab6000526001601fa0"));
    let mut info = EnvInfo::new();
    info.gas_limit = u(1_000_000);
    let executed = run_call(&mut state, &info, &call_of(sender, contract, 100_000, 0, 0));
    assert_eq!(executed.logs.len(), 1);
    assert_eq!(executed.logs[0].address, contract);
    assert_eq!(executed.logs[0].data, vec![0xab]);
    assert!(executed.logs[0].topics.is_empty());
    assert_eq!(executed.gas_used, u(21_000 + 3 + 3 + 6 + 3 + 3 + 375 + 8));
}

#[test]
fn clearing_storage_gives_gas_back() {
    let sender = address("0f572e5295c57f15886f9b263e2f6d2d6c7b5ec6");
    let contract = address("00000000000000000000000000000000000000c1");
    let mut state = State::new();
    state.add_balance(&sender, &u(1_000_000));
    state.set_storage(&contract, H256::zero(), H256::from_u256(u(5)));
    // PUSH1 0, PUSH1 0, SSTORE
    state.init_code(&contract, hex("6000600055"));
    let mut info = EnvInfo::new();
    info.gas_limit = u(1_000_000);
    let executed = run_call(&mut state, &info, &call_of(sender, contract, 100_000, 0, 0));
    assert_eq!(state.storage_at(&contract, &H256::zero()), H256::zero());
    // 21000 + 3 + 3 + 5000 were used; half of that is less than 15000.
    assert_eq!(executed.refunded, u(13_003));
    assert_eq!(executed.gas_used, u(13_003));
    assert!(executed.refunded.le(&u((100_000 - 73_994) / 2)));
}

#[test]
fn code_knows_the_hashes_of_the_last_blocks() {
    let sender = address("0f572e5295c57f15886f9b263e2f6d2d6c7b5ec6");
    let contract = address("00000000000000000000000000000000000000c1");
    let mut state = State::new();
    state.add_balance(&sender, &u(1_000_000));
    // PUSH1 3, BLOCKHASH, PUSH1 0, SSTORE, PUSH1 5, BLOCKHASH, PUSH1 1, SSTORE
    state.init_code(&contract, hex("600340600055600540600155"));
    let mut info = EnvInfo::new();
    info.gas_limit = u(1_000_000);
    info.number = 5;
    info.last_hashes = vec![
        H256 { hi: 0, lo: 44 },
        H256 { hi: 0, lo: 33 },
        H256 { hi: 0, lo: 22 },
    ];
    run_call(&mut state, &info, &call_of(sender, contract, 100_000, 0, 0));
    // Block 3 is the second before block 5; block 5 itself is not known.
    assert_eq!(state.storage_at(&contract, &H256::zero()), H256 { hi: 0, lo: 33 });
    assert_eq!(state.storage_at(&contract, &H256 { hi: 0, lo: 1 }), H256::zero());
}

#[test]
fn what_code_returns_goes_to_the_caller() {
    let sender = address("0f572e5295c57f15886f9b263e2f6d2d6c7b5ec6");
    let contract = address("00000000000000000000000000000000000000c1");
    let mut state = State::new();
    state.add_balance(&sender, &u(1_000_000));
    // PUSH1 0xab, PUSH1 0, MSTORE, PUSH1 2, PUSH1 30, RETURN
    state.init_code(&contract, hex("60ab6000526002601ef3"));
    let mut info = EnvInfo::new();
    info.gas_limit = u(1_000_000);
    let executed = run_call(&mut state, &info, &call_of(sender, contract, 100_000, 0, 0));
    assert_eq!(executed.output, vec![0x00, 0xab]);
}

#[test]
fn code_that_cannot_be_paid_for_is_left_out_or_fails() {
    // The code returns 16 bytes, which cost 3200 to keep; 24 are used to run.
    let code = hex("601080600c6000396000f3006000355415600957005b60203560003555");
    let sender = address("cd1722f3947def4cf144679da39c4c32bdc35681");
    let contract = contract_address(&sender, &U256::zero());
    let run = |schedule: Schedule| {
        let mut state = State::new();
        state.add_balance(&sender, &u(100));
        let info = EnvInfo::new();
        let engine = NullEngine::new(schedule);
        let mut substate = Substate::new();
        let params = new_params(sender, contract, 1_000, code.clone(), 0);
        let result = {
            let mut ex = Executive::new(&mut state, &info, &engine, &Interpreter);
            ex.create(params, &mut substate, &mut NoopTracer)
        };
        (result, state.code(&contract))
    };
    assert_eq!(run(Schedule::new_frontier()), (Ok(u(976)), Some(vec![])));
    assert_eq!(run(Schedule::new_homestead()), (Err(Error::OutOfGas), None));
}

#[test]
fn code_calls_an_account_and_moves_value() {
    let sender = address("0f572e5295c57f15886f9b263e2f6d2d6c7b5ec6");
    let contract = address("00000000000000000000000000000000000000c1");
    let friend = address("00000000000000000000000000000000000000c2");
    let mut state = State::new();
    state.add_balance(&sender, &u(1_000_000));
    state.add_balance(&contract, &u(10));
    // out size 0, out offset 0, in size 0, in offset 0, value 4, to 0xc2,
    // gas 100, CALL
    state.init_code(&contract, hex("6000600060006000600460c26064f1"));
    let mut info = EnvInfo::new();
    info.gas_limit = u(1_000_000);
    let engine = TestEngine::new(5);
    let executed = {
        let mut ex = Executive::new(&mut state, &info, &engine, &Interpreter);
        ex.transact(
            &call_of(sender, contract, 100_000, 0, 0),
            TransactOptions { check_nonce: true, tracing: true },
        )
        .unwrap()
    };
    assert_eq!(state.balance(&friend), u(4));
    assert_eq!(state.balance(&contract), u(6));
    let trace = executed.trace.unwrap();
    assert_eq!(trace.subs.len(), 1);
    assert_eq!(trace.subs[0].depth, 1);
    assert_eq!(
        trace.subs[0].action,
        TraceAction::Call(Call { from: contract, to: friend, value: u(4), gas: u(100), input: vec![] })
    );
    assert_eq!(trace.subs[0].result, Res::Call(CallResult { gas_used: u(0), output: vec![] }));
    // 21000, seven pushes, and 9040 for a call with value; the 100 offered
    // came back.
    assert_eq!(executed.gas_used, u(21_000 + 7 * 3 + 9_040));
}

#[test]
fn the_view_is_made_and_taken_apart() {
    let info = EnvInfo::new();
    let engine = NullEngine::new(Schedule::new_frontier());
    let mut state = State::new();
    state.add_balance(&identity_address(), &u(9));
    let origin = OriginInfo {
        address: identity_address(),
        origin: identity_address(),
        gas_price: u(1),
        value: u(2),
    };
    let mut ext = Externalities::new(
        state,
        &info,
        &engine,
        &Interpreter,
        3,
        origin,
        Substate::new(),
        OutputPolicy::Return,
        BytesRef::Fixed(vec![0, 0]),
        Some(vec![]),
        NoopTracer,
    );
    assert_eq!(ext.depth(), 3);
    assert_eq!(ext.origin_info(), origin);
    assert_eq!(ext.schedule().tx_gas, 21_000);
    assert_eq!(ext.env_info().number, 0);
    assert!(ext.account_exists(&identity_address()));
    assert_eq!(ext.balance(&identity_address()), u(9));
    assert_eq!(ext.extcode(&identity_address()), Vec::<u8>::new());
    assert_eq!(ext.ret(&u(50), &[1, 2, 3]), Ok(u(50)));
    ext.inc_sstore_clears();
    ext.log(vec![H256::zero()], &[7]);
    ext.set_storage(H256::zero(), H256 { hi: 0, lo: 1 });
    assert_eq!(ext.storage_at(&H256::zero()), H256 { hi: 0, lo: 1 });
    let (state, substate, buffer, copy, _tracer) = ext.into_parts();
    assert_eq!(state.balance(&identity_address()), u(9));
    assert_eq!(substate.sstore_clears_count, u(1));
    assert_eq!(substate.logs.len(), 1);
    assert_eq!(buffer, BytesRef::Fixed(vec![1, 2]));
    assert_eq!(copy, Some(vec![1, 2, 3]));
}
