//! The view of the state that the interpreter works on, and what goes
//! with it: the buffers for what code returns, and what code may learn of
//! its own call.

use vstd::prelude::*;
use crate::action_params::{ActionParams, ActionValue};
use crate::bytes::copy_bytes;
use crate::engine::Engine;
use crate::env_info::EnvInfo;
use crate::evm::{Error, Evm};
use crate::executive::{contract_address, contract_address_bytes, Executive};
use crate::hash::{Address, H256};
use crate::outcome::{call_comes_to, creation_comes_to};
use crate::schedule::Schedule;
use crate::state::{account_in, nonce_in, transferred, AccountView, State};
use crate::substate::{capped_sum, LogEntry, Substate};
use crate::trace::Tracer;
use crate::uint::{lemma_product_bound, pow2_256, U256};

verus! {

/// Where what the code returns goes.
#[derive(Clone, Copy, Debug, PartialEq, Eq, Structural)]
pub enum OutputPolicy {
    /// To the caller's buffer.
    Return,
    /// Into the new contract, as its code.
    InitContract,
}

/// A buffer for what a call returns.
#[derive(Debug, PartialEq, Eq)]
pub enum BytesRef {
    /// A buffer of fixed length: as much as fits is written to its front.
    Fixed(Vec<u8>),
    /// A buffer that takes the length of what is written.
    Flexible(Vec<u8>),
}

/// A buffer of fixed length after `data` was written to its front.
pub open spec fn overwritten(buffer: Seq<u8>, data: Seq<u8>) -> Seq<u8> {
    if data.len() <= buffer.len() {
        data + buffer.subrange(data.len() as int, buffer.len() as int)
    } else {
        data.subrange(0, buffer.len() as int)
    }
}

impl BytesRef {
    /// Whether the buffer keeps its length.
    pub open spec fn is_fixed(&self) -> bool {
        self is Fixed
    }

    /// The bytes in the buffer.
    pub open spec fn content(&self) -> Seq<u8> {
        match self {
            BytesRef::Fixed(b) => b@,
            BytesRef::Flexible(b) => b@,
        }
    }

    /// Whether two buffers are of the same kind and hold the same bytes.
    pub open spec fn alike(self, other: BytesRef) -> bool {
        &&& self.is_fixed() == other.is_fixed()
        &&& self.content() == other.content()
    }

    /// The bytes in the buffer after `data` was written to it.
    pub open spec fn after_write(&self, data: Seq<u8>) -> Seq<u8> {
        match self {
            BytesRef::Fixed(b) => overwritten(b@, data),
            BytesRef::Flexible(_) => data,
        }
    }

    /// Writes `data` to the buffer.
    pub fn write(&mut self, data: &[u8])
        ensures
            final(self).is_fixed() == old(self).is_fixed(),
            final(self).content() == old(self).after_write(data@),
    {
        match self {
            BytesRef::Fixed(buffer) => {
                let ghost before = buffer@;
                let mut i: usize = 0;
                while i < buffer.len() && i < data.len()
                    invariant
                        buffer@.len() == before.len(),
                        i <= buffer@.len(),
                        i <= data@.len(),
                        buffer@ == data@.subrange(0, i as int) + before.subrange(
                            i as int,
                            before.len() as int,
                        ),
                    decreases data@.len() - i,
                {
                    buffer.set(i, data[i]);
                    i = i + 1;
                    proof {
                        assert(buffer@ =~= data@.subrange(0, i as int) + before.subrange(
                            i as int,
                            before.len() as int,
                        ));
                    }
                }
                proof {
                    assert(buffer@ =~= overwritten(before, data@));
                }
            },
            BytesRef::Flexible(buffer) => {
                *buffer = copy_bytes(data);
            },
        }
    }

    /// A copy of the bytes in the buffer.
    pub fn to_vec(&self) -> (r: Vec<u8>)
        ensures
            r@ == self.content(),
    {
        match self {
            BytesRef::Fixed(b) => copy_bytes(b.as_slice()),
            BytesRef::Flexible(b) => copy_bytes(b.as_slice()),
        }
    }

    /// The bytes in the buffer.
    pub fn into_vec(self) -> (r: Vec<u8>)
        ensures
            r@ == self.content(),
    {
        match self {
            BytesRef::Fixed(b) => b,
            BytesRef::Flexible(b) => b,
        }
    }
}

/// Who runs: what the code may learn of its own call.
#[derive(Clone, Copy, Debug, PartialEq, Eq, Structural)]
pub struct OriginInfo {
    /// The address whose balance and storage the code works on.
    pub address: Address,
    /// The address that sent the transaction.
    pub origin: Address,
    /// The price of one unit of gas.
    pub gas_price: U256,
    /// The value that came with the call.
    pub value: U256,
}

/// What the code of `params` may learn of its call.
pub open spec fn origin_of(params: ActionParams) -> OriginInfo {
    OriginInfo {
        address: params.address,
        origin: params.origin,
        gas_price: params.gas_price,
        value: params.value.amount(),
    }
}

impl OriginInfo {
    /// What the code of `params` may learn of its call.
    pub fn from(params: &ActionParams) -> (r: OriginInfo)
        ensures
            r == origin_of(*params),
    {
        OriginInfo {
            address: params.address,
            origin: params.origin,
            gas_price: params.gas_price,
            value: params.value.value(),
        }
    }
}

/// What a creation from within code came to.
#[derive(Clone, Copy, Debug, PartialEq, Eq, Structural)]
pub enum ContractCreateResult {
    /// The contract stands at the address; so much gas is left.
    Created(Address, U256),
    /// The creation failed and took its gas.
    Failed,
}

/// What a call from within code came to.
#[derive(Clone, Copy, Debug, PartialEq, Eq, Structural)]
pub enum MessageCallResult {
    /// The call stands; so much gas is left.
    Success(U256),
    /// The call failed and took its gas.
    Failed,
}

/// The view of the state that the interpreter works on: the state itself for
/// the time of one run, with the substate, the buffers and the observer of
/// the call that runs.
pub struct Externalities<'a, T, E, V> {
    state: State,
    env_info: &'a EnvInfo,
    engine: &'a E,
    vm_factory: &'a V,
    depth: usize,
    origin_info: OriginInfo,
    substate: Substate,
    schedule: Schedule,
    policy: OutputPolicy,
    output: BytesRef,
    trace_output: Option<Vec<u8>>,
    tracer: T,
}

impl<'a, T, E, V> Externalities<'a, T, E, V> {
    /// The world state.
    pub closed spec fn state(&self) -> State {
        self.state
    }

    /// The side effects of the call that runs.
    pub closed spec fn substate(&self) -> Substate {
        self.substate
    }

    /// The block that the transaction is in.
    pub closed spec fn block(&self) -> EnvInfo {
        *self.env_info
    }

    /// The consensus engine.
    pub closed spec fn engine(&self) -> E {
        *self.engine
    }

    /// The interpreter.
    pub closed spec fn interpreter(&self) -> V {
        *self.vm_factory
    }

    /// How deeply the call that runs is nested.
    pub closed spec fn nesting(&self) -> usize {
        self.depth
    }

    /// What the code may learn of its call.
    pub closed spec fn origin(&self) -> OriginInfo {
        self.origin_info
    }

    /// The rule table.
    pub closed spec fn rules(&self) -> Schedule {
        self.schedule
    }

    /// Where what the code returns goes.
    pub closed spec fn policy(&self) -> OutputPolicy {
        self.policy
    }

    /// The caller's buffer.
    pub closed spec fn buffer(&self) -> BytesRef {
        self.output
    }

    /// The observer's copy of what the code returns, where it keeps one.
    pub closed spec fn trace_buffer(&self) -> Option<Vec<u8>> {
        self.trace_output
    }

    /// The observer of what is nested in the call that runs.
    pub closed spec fn observer(&self) -> T {
        self.tracer
    }

    /// The view that holds the parts given.
    pub closed spec fn holding(
        state: State,
        env_info: &'a EnvInfo,
        engine: &'a E,
        vm_factory: &'a V,
        depth: usize,
        origin_info: OriginInfo,
        substate: Substate,
        schedule: Schedule,
        policy: OutputPolicy,
        output: BytesRef,
        trace_output: Option<Vec<u8>>,
        tracer: T,
    ) -> Self {
        Externalities {
            state,
            env_info,
            engine,
            vm_factory,
            depth,
            origin_info,
            substate,
            schedule,
            policy,
            output,
            trace_output,
            tracer,
        }
    }

    /// A view holds what it was made of.
    pub proof fn lemma_holding(
        state: State,
        env_info: &'a EnvInfo,
        engine: &'a E,
        vm_factory: &'a V,
        depth: usize,
        origin_info: OriginInfo,
        substate: Substate,
        schedule: Schedule,
        policy: OutputPolicy,
        output: BytesRef,
        trace_output: Option<Vec<u8>>,
        tracer: T,
    )
        ensures
            ({
                let held = Self::holding(
                    state,
                    env_info,
                    engine,
                    vm_factory,
                    depth,
                    origin_info,
                    substate,
                    schedule,
                    policy,
                    output,
                    trace_output,
                    tracer,
                );
                &&& held.state() == state
                &&& held.block() == *env_info
                &&& held.engine() == *engine
                &&& held.interpreter() == *vm_factory
                &&& held.nesting() == depth
                &&& held.origin() == origin_info
                &&& held.substate() == substate
                &&& held.rules() == schedule
                &&& held.policy() == policy
                &&& held.buffer() == output
                &&& held.trace_buffer() == trace_output
                &&& held.observer() == tracer
            }),
    {
    }

    /// The state and the substate are well formed.
    pub open spec fn wf(&self) -> bool {
        &&& self.state().wf()
        &&& self.substate().wf()
    }

    /// Whether two views show the same to the code that runs on them: all
    /// but the observer and the observer's copy of what is returned.
    pub open spec fn alike<T2>(self, other: Externalities<'_, T2, E, V>) -> bool {
        &&& self.state()@ == other.state()@
        &&& self.state().checkpoints() == other.state().checkpoints()
        &&& self.block() == other.block()
        &&& self.engine() == other.engine()
        &&& self.interpreter() == other.interpreter()
        &&& self.nesting() == other.nesting()
        &&& self.origin() == other.origin()
        &&& self.substate().alike(other.substate())
        &&& self.rules() == other.rules()
        &&& self.policy() == other.policy()
        &&& self.buffer().alike(other.buffer())
    }

    /// Whether `self` can be what `before` has become while code ran: the
    /// same checkpoints are open, the sum of all balances has not grown, and
    /// what describes the call is as it was.
    pub open spec fn follows(self, before: Self) -> bool {
        &&& self.wf()
        &&& self.state().checkpoints() == before.state().checkpoints()
        &&& self.state().supply() <= before.state().supply()
        &&& self.block() == before.block()
        &&& self.engine() == before.engine()
        &&& self.interpreter() == before.interpreter()
        &&& self.nesting() == before.nesting()
        &&& self.origin() == before.origin()
        &&& self.rules() == before.rules()
        &&& self.policy() == before.policy()
        &&& self.buffer().is_fixed() == before.buffer().is_fixed()
        &&& self.trace_buffer().is_some() == before.trace_buffer().is_some()
    }
}

/// The hash of an earlier block as code may ask for it: that of one of the
/// 256 blocks before the one that runs, where it is known, and zero for every
/// other number.
pub open spec fn blockhash_of(info: EnvInfo, number: nat) -> H256 {
    let back = info.number - number - 1;
    if number < info.number && 0 <= back < 256 && back < info.last_hashes@.len() {
        info.last_hashes@[back]
    } else {
        H256 { hi: 0, lo: 0 }
    }
}

/// Whether `params` asks for the call that code makes with the arguments
/// given: the value moves where one is given, and is only seen, as the value
/// of the caller's own call, where none is; the code is what the accounts
/// hold at the code's address.
pub open spec fn is_nested_call(
    params: ActionParams,
    gas: U256,
    sender: Address,
    receiver: Address,
    value: Option<U256>,
    data: Seq<u8>,
    code_address: Address,
    origin: OriginInfo,
    accounts: Map<Address, AccountView>,
) -> bool {
    &&& params.code_address == code_address
    &&& params.address == receiver
    &&& params.sender == sender
    &&& params.origin == origin.origin
    &&& params.gas == gas
    &&& params.gas_price == origin.gas_price
    &&& params.value == match value {
        Some(amount) => ActionValue::Transfer(amount),
        None => ActionValue::Apparent(origin.value),
    }
    &&& params.data matches Some(input) && input@ == data
    &&& if accounts.dom().contains(code_address) {
        params.code matches Some(code) && code@ == accounts[code_address].code
    } else {
        params.code.is_none()
    }
}

/// Whether `params` asks for the creation that code makes with the arguments
/// given, from the account that runs, at the nonce given.
pub open spec fn is_nested_create(
    params: ActionParams,
    gas: U256,
    value: U256,
    code: Seq<u8>,
    origin: OriginInfo,
    nonce: nat,
) -> bool {
    &&& params.address.bytes() == contract_address_bytes(origin.address, nonce)
    &&& params.code_address == params.address
    &&& params.sender == origin.address
    &&& params.origin == origin.origin
    &&& params.gas == gas
    &&& params.gas_price == origin.gas_price
    &&& params.value == ActionValue::Transfer(value)
    &&& params.code matches Some(init) && init@ == code
    &&& params.data.is_none()
}

/// The accounts after the nonce of `address` has gone up by one.
pub open spec fn counted(
    accounts: Map<Address, AccountView>,
    address: Address,
) -> Map<Address, AccountView> {
    accounts.insert(
        address,
        AccountView { nonce: nonce_in(accounts, address) + 1, ..account_in(accounts, address) },
    )
}

impl<'a, T: Tracer, E: Engine, V: Evm> Externalities<'a, T, E, V> {
    /// A view for code that runs at `depth` for the call that `origin_info`
    /// describes.
    pub fn new(
        state: State,
        env_info: &'a EnvInfo,
        engine: &'a E,
        vm_factory: &'a V,
        depth: usize,
        origin_info: OriginInfo,
        substate: Substate,
        policy: OutputPolicy,
        output: BytesRef,
        trace_output: Option<Vec<u8>>,
        tracer: T,
    ) -> (r: Self)
        ensures
            r == Self::holding(
                state,
                env_info,
                engine,
                vm_factory,
                depth,
                origin_info,
                substate,
                engine.schedule_of(env_info),
                policy,
                output,
                trace_output,
                tracer,
            ),
            r.state() == state,
            r.block() == *env_info,
            r.engine() == *engine,
            r.interpreter() == *vm_factory,
            r.nesting() == depth,
            r.origin() == origin_info,
            r.substate() == substate,
            r.rules() == engine.schedule_of(env_info),
            r.policy() == policy,
            r.buffer() == output,
            r.trace_buffer() == trace_output,
            r.observer() == tracer,
    {
        let schedule = engine.schedule(env_info);
        Externalities {
            state,
            env_info,
            engine,
            vm_factory,
            depth,
            origin_info,
            substate,
            schedule,
            policy,
            output,
            trace_output,
            tracer,
        }
    }

    /// Hands out the state, the substate, the caller's buffer, the
    /// observer's copy of what was returned, and the observer.
    pub fn into_parts(self) -> (r: (State, Substate, BytesRef, Option<Vec<u8>>, T))
        ensures
            r.0 == self.state(),
            r.1 == self.substate(),
            r.2 == self.buffer(),
            r.3 == self.trace_buffer(),
            r.4 == self.observer(),
    {
        let Externalities { state, substate, output, trace_output, tracer, .. } = self;
        (state, substate, output, trace_output, tracer)
    }

    /// The value of a storage slot of the account that runs.
    pub fn storage_at(&self, key: &H256) -> (r: H256)
        requires
            self.wf(),
        ensures
            r == self.state().account_of(self.origin().address).storage[*key],
    {
        self.state.storage_at(&self.origin_info.address, key)
    }

    /// Writes a storage slot of the account that runs.
    pub fn set_storage(&mut self, key: H256, value: H256)
        requires
            old(self).wf(),
        ensures
            final(self).follows(*old(self)),
            final(self).state().accounts() == old(self).state().accounts().insert(
                old(self).origin().address,
                AccountView {
                    storage: old(self).state().account_of(
                        old(self).origin().address,
                    ).storage.insert(key, value),
                    ..old(self).state().account_of(old(self).origin().address)
                },
            ),
            final(self).state().supply() == old(self).state().supply(),
            final(self).substate() == old(self).substate(),
            final(self).buffer() == old(self).buffer(),
            final(self).trace_buffer() == old(self).trace_buffer(),
            final(self).observer() == old(self).observer(),
    {
        self.state.set_storage(&self.origin_info.address, key, value);
    }

    /// Whether the address has an account.
    pub fn account_exists(&self, address: &Address) -> (r: bool)
        requires
            self.wf(),
        ensures
            r == self.state().accounts().dom().contains(*address),
    {
        self.state.has_account(address)
    }

    /// The balance of an address.
    pub fn balance(&self, address: &Address) -> (r: U256)
        requires
            self.wf(),
        ensures
            r@ == self.state().balance_of(*address),
    {
        self.state.balance(address)
    }

    /// The hash of the block with the number given, where code may know it.
    pub fn blockhash(&self, number: &U256) -> (r: H256)
        ensures
            r == blockhash_of(self.block(), number@),
    {
        let current: u64 = self.env_info.number;
        if number.hi != 0 || number.lo >= current as u128 {
            return H256::zero();
        }
        let asked: u64 = number.lo as u64;
        let back: u64 = current - asked - 1;
        if back < 256 && (back as usize) < self.env_info.last_hashes.len() {
            self.env_info.last_hashes[back as usize]
        } else {
            H256::zero()
        }
    }

    /// The code of an address; none where it has no account.
    pub fn extcode(&self, address: &Address) -> (r: Vec<u8>)
        requires
            self.wf(),
        ensures
            r@ == self.state().account_of(*address).code,
    {
        match self.state.code(address) {
            Some(code) => code,
            None => Vec::new(),
        }
    }

    /// The rule table.
    pub fn schedule(&self) -> (r: &Schedule)
        ensures
            *r == self.rules(),
    {
        &self.schedule
    }

    /// The block that the transaction is in.
    pub fn env_info(&self) -> (r: &EnvInfo)
        ensures
            *r == self.block(),
    {
        self.env_info
    }

    /// How deeply the call that runs is nested.
    pub fn depth(&self) -> (r: usize)
        ensures
            r == self.nesting(),
    {
        self.depth
    }

    /// What the code may learn of its call.
    pub fn origin_info(&self) -> (r: OriginInfo)
        ensures
            r == self.origin(),
    {
        self.origin_info
    }

    /// Counts one storage slot that went from a value to zero.
    pub fn inc_sstore_clears(&mut self)
        requires
            old(self).wf(),
        ensures
            final(self).follows(*old(self)),
            final(self).state() == old(self).state(),
            final(self).substate().sstore_clears_count@ == capped_sum(
                old(self).substate().sstore_clears_count@,
                1,
            ),
            final(self).substate().suicides == old(self).substate().suicides,
            final(self).substate().logs == old(self).substate().logs,
            final(self).substate().contracts_created == old(self).substate().contracts_created,
            final(self).buffer() == old(self).buffer(),
            final(self).trace_buffer() == old(self).trace_buffer(),
            final(self).observer() == old(self).observer(),
    {
        self.substate.sstore_clears_count = self.substate.sstore_clears_count.saturating_add(
            U256::one(),
        );
    }

    /// Emits an event of the account that runs.
    pub fn log(&mut self, topics: Vec<H256>, data: &[u8])
        requires
            old(self).wf(),
        ensures
            final(self).follows(*old(self)),
            final(self).state() == old(self).state(),
            final(self).substate().logs@.len() == old(self).substate().logs@.len() + 1,
            final(self).substate().logs@.drop_last() == old(self).substate().logs@,
            final(self).substate().logs@.last().address == old(self).origin().address,
            final(self).substate().logs@.last().topics == topics,
            final(self).substate().logs@.last().data@ == data@,
            final(self).substate().suicides == old(self).substate().suicides,
            final(self).substate().sstore_clears_count == old(
                self,
            ).substate().sstore_clears_count,
            final(self).substate().contracts_created == old(self).substate().contracts_created,
            final(self).buffer() == old(self).buffer(),
            final(self).trace_buffer() == old(self).trace_buffer(),
            final(self).observer() == old(self).observer(),
    {
        let entry = LogEntry { address: self.origin_info.address, topics, data: copy_bytes(data) };
        self.substate.logs.push(entry);
        proof {
            assert(self.substate.logs@.drop_last() =~= old(self).substate.logs@);
        }
    }

    /// Destroys the account that runs: its balance goes to `refund_address`,
    /// or is lost where that is the account itself, and the account is noted
    /// for removal at the end of the transaction.
    pub fn suicide(&mut self, refund_address: &Address)
        requires
            old(self).wf(),
        ensures
            final(self).follows(*old(self)),
            final(self).state().accounts() == ({
                let address = old(self).origin().address;
                let accounts = old(self).state().accounts();
                let balance = old(self).state().balance_of(address);
                if address == *refund_address {
                    accounts.insert(
                        address,
                        AccountView { balance: 0, ..account_in(accounts, address) },
                    )
                } else {
                    transferred(accounts, address, *refund_address, balance)
                }
            }),
            final(self).substate().suicide_set() == old(self).substate().suicide_set().insert(
                old(self).origin().address,
            ),
            final(self).substate().logs == old(self).substate().logs,
            final(self).substate().sstore_clears_count == old(
                self,
            ).substate().sstore_clears_count,
            final(self).substate().contracts_created == old(self).substate().contracts_created,
            final(self).buffer() == old(self).buffer(),
            final(self).trace_buffer() == old(self).trace_buffer(),
            final(self).observer() == old(self).observer(),
    {
        let address = self.origin_info.address;
        let balance = self.state.balance(&address);
        if address == *refund_address {
            self.state.sub_balance(&address, &balance);
        } else {
            self.state.transfer_balance(&address, refund_address, &balance);
        }
        self.substate.add_suicide(address);
    }

    /// Hands back what the code returns. For a call it goes to the caller's
    /// buffer, and all the gas is left. For a creation it becomes the code of
    /// the new contract, at a price for each byte; where the gas does not pay
    /// for it, the rule table decides whether the creation fails or the
    /// contract stays without code.
    pub fn ret(&mut self, gas: &U256, data: &[u8]) -> (r: crate::evm::Result)
        requires
            old(self).wf(),
        ensures
            final(self).follows(*old(self)),
            final(self).substate() == old(self).substate(),
            final(self).observer() == old(self).observer(),
            r matches Ok(gas_left) ==> gas_left@ <= gas@,
            match old(self).policy() {
                OutputPolicy::Return => {
                    &&& r == Ok::<U256, Error>(*gas)
                    &&& final(self).state() == old(self).state()
                    &&& final(self).buffer().content() == old(self).buffer().after_write(data@)
                    &&& final(self).trace_buffer() matches Some(copy) ==> copy@ == data@
                },
                OutputPolicy::InitContract => {
                    let cost = data@.len() * old(self).rules().create_data_gas;
                    &&& final(self).buffer() == old(self).buffer()
                    &&& if cost > gas@ {
                        &&& r == if old(self).rules().exceptional_failed_code_deposit {
                            Err::<U256, Error>(Error::OutOfGas)
                        } else {
                            Ok::<U256, Error>(*gas)
                        }
                        &&& final(self).state() == old(self).state()
                        &&& final(self).trace_buffer() == old(self).trace_buffer()
                    } else {
                        &&& r matches Ok(gas_left) && gas_left@ == gas@ - cost
                        &&& final(self).state().accounts() == old(self).state().accounts().insert(
                            old(self).origin().address,
                            AccountView {
                                code: data@,
                                ..old(self).state().account_of(old(self).origin().address)
                            },
                        )
                        &&& final(self).state().supply() == old(self).state().supply()
                        &&& final(self).trace_buffer() matches Some(copy) ==> copy@ == data@
                    }
                },
            },
    {
        match self.policy {
            OutputPolicy::Return => {
                if self.trace_output.is_some() {
                    self.trace_output = Some(copy_bytes(data));
                }
                self.output.write(data);
                Ok(*gas)
            },
            OutputPolicy::InitContract => {
                let length: usize = data.len();
                proof {
                    lemma_product_bound(
                        length as int,
                        self.schedule.create_data_gas as int,
                        crate::uint::pow2_64(),
                    );
                }
                let cost: u128 = (length as u128) * (self.schedule.create_data_gas as u128);
                let return_cost = U256::from_u128(cost);
                if return_cost.gt(gas) {
                    if self.schedule.exceptional_failed_code_deposit {
                        Err(Error::OutOfGas)
                    } else {
                        Ok(*gas)
                    }
                } else {
                    if self.trace_output.is_some() {
                        self.trace_output = Some(copy_bytes(data));
                    }
                    self.state.init_code(&self.origin_info.address, copy_bytes(data));
                    Ok(gas.sub(return_cost))
                }
            },
        }
    }

    /// Calls from within code. The value, where one is given, moves from
    /// `sender_address` to `receive_address`; the code of `code_address` runs
    /// one level deeper. A call that the interpreter does not make, for want
    /// of balance or of depth, is left out.
    pub fn call(
        &mut self,
        gas: &U256,
        sender_address: &Address,
        receive_address: &Address,
        value: Option<U256>,
        data: &[u8],
        code_address: &Address,
        output: &mut BytesRef,
    ) -> (r: MessageCallResult)
        requires
            old(self).wf(),
            old(self).nesting() < usize::MAX,
            value matches Some(amount) ==> old(self).state().balance_of(*sender_address)
                >= amount@,
        ensures
            final(self).follows(*old(self)),
            final(self).buffer() == old(self).buffer(),
            final(self).trace_buffer() == old(self).trace_buffer(),
            final(self).observer().recording() == old(self).observer().recording(),
            final(output).is_fixed() == old(output).is_fixed(),
            r matches MessageCallResult::Success(gas_left) ==> gas_left@ <= gas@,
            exists|params: ActionParams, result: crate::evm::Result|
                {
                    &&& is_nested_call(
                        params,
                        *gas,
                        *sender_address,
                        *receive_address,
                        value,
                        data@,
                        *code_address,
                        old(self).origin(),
                        old(self).state().accounts(),
                    )
                    &&& #[trigger] call_comes_to::<T, E, V>(
                        result,
                        old(self).substate(),
                        final(self).substate(),
                        final(self).state().accounts(),
                        *final(output),
                        old(self).observer().recorded(),
                        final(self).observer().recorded(),
                        params,
                        old(self).state().accounts(),
                        old(self).state().supply(),
                        old(self).state().checkpoints(),
                        old(self).block(),
                        old(self).engine(),
                        old(self).interpreter(),
                        (old(self).nesting() + 1) as usize,
                        old(self).observer().recording(),
                        *old(output),
                    )
                    &&& r == match result {
                        Ok(gas_left) => MessageCallResult::Success(gas_left),
                        Err(_) => MessageCallResult::Failed,
                    }
                },
    {
        let transfer = match value {
            Some(amount) => ActionValue::Transfer(amount),
            None => ActionValue::Apparent(self.origin_info.value),
        };
        let params = ActionParams {
            code_address: *code_address,
            address: *receive_address,
            sender: *sender_address,
            origin: self.origin_info.origin,
            gas: *gas,
            gas_price: self.origin_info.gas_price,
            value: transfer,
            code: self.state.code(code_address),
            data: Some(copy_bytes(data)),
        };
        let mut ex = Executive::from_parent(
            &mut self.state,
            self.env_info,
            self.engine,
            self.vm_factory,
            self.depth,
        );
        let result = ex.call(params, &mut self.substate, output, &mut self.tracer);
        proof {
            assert(call_comes_to::<T, E, V>(
                result,
                old(self).substate(),
                self.substate(),
                self.state().accounts(),
                *output,
                old(self).observer().recorded(),
                self.observer().recorded(),
                params,
                old(self).state().accounts(),
                old(self).state().supply(),
                old(self).state().checkpoints(),
                old(self).block(),
                old(self).engine(),
                old(self).interpreter(),
                (old(self).nesting() + 1) as usize,
                old(self).observer().recording(),
                *old(output),
            ));
        }
        match result {
            Ok(gas_left) => MessageCallResult::Success(gas_left),
            Err(_) => MessageCallResult::Failed,
        }
    }

    /// Creates a contract from within code: at the address that the account
    /// that runs and its nonce give, with `value` from its balance, one level
    /// deeper. The nonce goes up by one whatever comes of the creation. A
    /// creation that the interpreter does not make, for want of balance or of
    /// depth, is left out; at the largest nonce there is, nothing is created.
    pub fn create(&mut self, gas: &U256, value: &U256, code: &[u8]) -> (r: ContractCreateResult)
        requires
            old(self).wf(),
            old(self).nesting() < usize::MAX,
            old(self).state().balance_of(old(self).origin().address) >= value@,
        ensures
            final(self).follows(*old(self)),
            final(self).buffer() == old(self).buffer(),
            final(self).trace_buffer() == old(self).trace_buffer(),
            final(self).observer().recording() == old(self).observer().recording(),
            r matches ContractCreateResult::Created(address, gas_left) ==> {
                &&& gas_left@ <= gas@
                &&& address.bytes() == contract_address_bytes(
                    old(self).origin().address,
                    old(self).state().nonce_of(old(self).origin().address),
                )
                &&& final(self).substate().contracts_created@.len() > 0
                &&& final(self).substate().contracts_created@.last() == address
            },
            old(self).state().nonce_of(old(self).origin().address) + 1 == pow2_256() ==> r
                is Failed && final(self).state() == old(self).state() && final(self).substate()
                == old(self).substate(),
            old(self).state().nonce_of(old(self).origin().address) + 1 < pow2_256()
                ==> exists|params: ActionParams, result: crate::evm::Result, gathered: Substate|
                {
                    &&& is_nested_create(
                        params,
                        *gas,
                        *value,
                        code@,
                        old(self).origin(),
                        old(self).state().nonce_of(old(self).origin().address),
                    )
                    &&& #[trigger] creation_comes_to::<T, E, V>(
                        result,
                        old(self).substate(),
                        gathered,
                        final(self).state().accounts(),
                        old(self).observer().recorded(),
                        final(self).observer().recorded(),
                        params,
                        counted(old(self).state().accounts(), old(self).origin().address),
                        old(self).state().supply(),
                        old(self).state().checkpoints(),
                        old(self).block(),
                        old(self).engine(),
                        old(self).interpreter(),
                        (old(self).nesting() + 1) as usize,
                        old(self).observer().recording(),
                    )
                    &&& match result {
                        Ok(gas_left) => {
                            &&& r == ContractCreateResult::Created(params.address, gas_left)
                            &&& final(self).substate().contracts_created@
                                == gathered.contracts_created@.push(params.address)
                            &&& final(self).substate().suicides == gathered.suicides
                            &&& final(self).substate().logs == gathered.logs
                            &&& final(self).substate().sstore_clears_count
                                == gathered.sstore_clears_count
                        },
                        Err(_) => r == ContractCreateResult::Failed && final(self).substate()
                            == gathered,
                    }
                },
    {
        let nonce = self.state.nonce(&self.origin_info.address);
        if nonce == U256::max_value() {
            return ContractCreateResult::Failed;
        }
        let address = contract_address(&self.origin_info.address, &nonce);
        let params = ActionParams {
            code_address: address,
            address: address,
            sender: self.origin_info.address,
            origin: self.origin_info.origin,
            gas: *gas,
            gas_price: self.origin_info.gas_price,
            value: ActionValue::Transfer(*value),
            code: Some(copy_bytes(code)),
            data: None,
        };
        self.state.inc_nonce(&self.origin_info.address);
        let mut ex = Executive::from_parent(
            &mut self.state,
            self.env_info,
            self.engine,
            self.vm_factory,
            self.depth,
        );
        let result = ex.create(params, &mut self.substate, &mut self.tracer);
        let ghost gathered = self.substate;
        let ghost ex_accounts = self.state().accounts();
        let ghost ex_recorded = self.observer().recorded();
        proof {
            assert(creation_comes_to::<T, E, V>(
                result,
                old(self).substate(),
                gathered,
                self.state().accounts(),
                old(self).observer().recorded(),
                self.observer().recorded(),
                params,
                counted(old(self).state().accounts(), old(self).origin().address),
                old(self).state().supply(),
                old(self).state().checkpoints(),
                old(self).block(),
                old(self).engine(),
                old(self).interpreter(),
                (old(self).nesting() + 1) as usize,
                old(self).observer().recording(),
            ));
        }
        let r = match result {
            Ok(gas_left) => {
                self.substate.contracts_created.push(address);
                ContractCreateResult::Created(address, gas_left)
            },
            Err(_) => ContractCreateResult::Failed,
        };
        proof {
            assert(is_nested_create(
                params,
                *gas,
                *value,
                code@,
                old(self).origin(),
                old(self).state().nonce_of(old(self).origin().address),
            ));
            assert(self.state().accounts() == ex_accounts);
            assert(self.observer().recorded() == ex_recorded);
        }
        r
    }
}

} // verus!
