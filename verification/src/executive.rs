//! The executive: it runs one transaction, or one call or creation nested in
//! another, against the world state.

use vstd::prelude::*;
use crate::action_params::{ActionParams, ActionValue};
use crate::bytes::{be_minimal, copy_bytes, minimal_u256_bytes};
use crate::engine::Engine;
use crate::env_info::EnvInfo;
use crate::error::ExecutionError;
use crate::evm::{reverts, Error, Evm};
use crate::executed::{Executed, ExecutionResult};
use crate::externalities::{origin_of, BytesRef, Externalities, OriginInfo, OutputPolicy};
use crate::gas::settle_gas;
use crate::hash::{keccak, keccak256, Address};
use crate::outcome::{
    accrued, action_comes_to, call_comes_to, contract_placed, creation_comes_to, is_call_trace,
    is_create_trace, is_handed, is_transaction_params, lemma_tracing_unobserved, one_more,
    plain_call_traced, prepaid, ran, records, same_but_trace, settled_accounts, settles,
    transacted, value_moved, without,
};
use crate::rlp_codec::{encode_pair, rlp_bytes, rlp_list};
use crate::state::{nonce_in, AccountView, State, StateView};
use crate::substate::Substate;
use crate::trace::{ExecutiveTracer, NoopTracer, Res, Trace, Tracer};
use crate::transaction::Action as TransactionAction;
use crate::transaction::{base_gas, SignedTransaction};
use crate::uint::{lemma_product_bound, lemma_product_monotonic, pow2_256, pow2_512, U256, U512};

verus! {

/// Every so many levels of nesting the interpreter gets a stack of its own.
pub const MAX_VM_DEPTH_FOR_THREAD: usize = 64;

/// The bytes of the address that a contract gets which `sender` creates at
/// `nonce`: the last 20 bytes of the hash of the two, encoded as a list.
pub open spec fn contract_address_bytes(sender: Address, nonce: nat) -> Seq<u8> {
    keccak256(rlp_list(rlp_bytes(sender.bytes()) + rlp_bytes(be_minimal(nonce)))).subrange(12, 32)
}

/// The address of the contract that `address` creates at `nonce`.
pub fn contract_address(address: &Address, nonce: &U256) -> (r: Address)
    ensures
        r.bytes() == contract_address_bytes(*address, nonce@),
{
    let sender = address.to_bytes();
    let count = minimal_u256_bytes(nonce);
    let encoded = encode_pair(sender.as_slice(), count.as_slice());
    let hash = keccak(encoded.as_slice());
    Address::from_hash(&hash)
}

/// The address of a created contract depends on the creator and its nonce
/// alone: equal creators at equal nonces give equal addresses.
pub proof fn lemma_contract_address_determined(
    first: Address,
    second: Address,
    sender: Address,
    nonce: nat,
)
    requires
        first.bytes() == contract_address_bytes(sender, nonce),
        second.bytes() == contract_address_bytes(sender, nonce),
    ensures
        first == second,
{
    first.lemma_bytes_injective(second);
}

/// Whether the interpreter gets a stack of its own at this depth of nesting.
pub fn uses_fresh_stack(depth: usize) -> (r: bool)
    ensures
        r == ((depth + 1) % (MAX_VM_DEPTH_FOR_THREAD as int) == 0),
{
    depth % MAX_VM_DEPTH_FOR_THREAD == MAX_VM_DEPTH_FOR_THREAD - 1
}

/// How a transaction is to be executed.
pub struct TransactOptions {
    /// Whether to record a trace.
    pub tracing: bool,
    /// Whether the transaction's nonce must be the sender's.
    pub check_nonce: bool,
}

/// What the checks before execution find of a transaction.
pub enum Verdict {
    /// The sender cannot be told.
    Malformed,
    /// The gas offered does not pay for the bare inclusion.
    NotEnoughBaseGas { required: nat, got: nat },
    /// The nonce is not the sender's.
    InvalidNonce { expected: nat, got: nat },
    /// The block has not enough gas left.
    BlockGasLimitReached { gas_limit: nat, gas_used: nat, gas: nat },
    /// The sender cannot pay for the value and all the gas.
    NotEnoughCash { required: nat, got: nat },
    /// Nothing stands against the transaction.
    Accepted,
}

/// The checks that a transaction passes before it changes anything, in their
/// order: the first that fails decides.
pub open spec fn verdict(
    t: SignedTransaction,
    nonce: nat,
    balance: nat,
    base_gas_required: nat,
    info: EnvInfo,
    check_nonce: bool,
) -> Verdict {
    if t.sender.is_none() {
        Verdict::Malformed
    } else if t.gas@ < base_gas_required {
        Verdict::NotEnoughBaseGas { required: base_gas_required, got: t.gas@ }
    } else if check_nonce && t.nonce@ != nonce {
        Verdict::InvalidNonce { expected: nonce, got: t.nonce@ }
    } else if info.gas_used@ + t.gas@ > info.gas_limit@ {
        Verdict::BlockGasLimitReached {
            gas_limit: info.gas_limit@,
            gas_used: info.gas_used@,
            gas: t.gas@,
        }
    } else if balance < t.value@ + t.gas@ * t.gas_price@ {
        Verdict::NotEnoughCash { required: t.value@ + t.gas@ * t.gas_price@, got: balance }
    } else {
        Verdict::Accepted
    }
}

/// Whether the error says what the verdict found.
pub open spec fn reports(error: ExecutionError, verdict: Verdict) -> bool {
    match verdict {
        Verdict::Malformed => error matches ExecutionError::TransactionMalformed(message)
            && message@ == "Transaction malformed"@,
        Verdict::NotEnoughBaseGas { required, got } => error matches ExecutionError::NotEnoughBaseGas {
            required: r,
            got: g,
        } && r@ == required && g@ == got,
        Verdict::InvalidNonce { expected, got } => error matches ExecutionError::InvalidNonce {
            expected: e,
            got: g,
        } && e@ == expected && g@ == got,
        Verdict::BlockGasLimitReached {
            gas_limit,
            gas_used,
            gas,
        } => error matches ExecutionError::BlockGasLimitReached { gas_limit: l, gas_used: u, gas: g }
            && l@ == gas_limit && u@ == gas_used && g@ == gas,
        Verdict::NotEnoughCash { required, got } => error matches ExecutionError::NotEnoughCash {
            required: r,
            got: g,
        } && r@ == required && g@ == got,
        Verdict::Accepted => false,
    }
}

/// What `transact` makes of a transaction of which the checks found
/// `found`: one that is accepted comes to what `transacted` says, under an
/// observer that records where a trace is asked for and under a silent one
/// where none is; any other fails with the error that reports what was found,
/// and the accounts stay as they were.
pub open spec fn transaction_comes_to<E: Engine, V: Evm>(
    res: ExecutionResult,
    accounts: Map<Address, AccountView>,
    t: SignedTransaction,
    found: Verdict,
    before: StateView,
    checkpoints: Seq<StateView>,
    info: EnvInfo,
    engine: E,
    interpreter: V,
    depth: usize,
    tracing: bool,
) -> bool {
    if !(found is Accepted) {
        &&& res matches Err(error) && reports(error, found)
        &&& accounts == before.accounts
    } else if tracing {
        transacted::<ExecutiveTracer, E, V>(
            res,
            accounts,
            t,
            before,
            checkpoints,
            info,
            engine,
            interpreter,
            depth,
            true,
            Seq::empty(),
        )
    } else {
        transacted::<NoopTracer, E, V>(
            res,
            accounts,
            t,
            before,
            checkpoints,
            info,
            engine,
            interpreter,
            depth,
            false,
            Seq::empty(),
        )
    }
}

/// Tracing does not show in what a transaction does. Where `transact`
/// runs the same transaction on the same state once with a trace and
/// once without, both runs leave the same accounts; both succeed or both
/// fail; and where the transaction is accepted, their outcomes agree in
/// all but the trace.
pub proof fn lemma_tracing_does_not_show<E: Engine, V: Evm>(
    traced: ExecutionResult,
    traced_accounts: Map<Address, AccountView>,
    plain: ExecutionResult,
    plain_accounts: Map<Address, AccountView>,
    t: SignedTransaction,
    found: Verdict,
    before: StateView,
    checkpoints: Seq<StateView>,
    info: EnvInfo,
    engine: E,
    interpreter: V,
    depth: usize,
)
    requires
        transaction_comes_to::<E, V>(
            traced,
            traced_accounts,
            t,
            found,
            before,
            checkpoints,
            info,
            engine,
            interpreter,
            depth,
            true,
        ),
        transaction_comes_to::<E, V>(
            plain,
            plain_accounts,
            t,
            found,
            before,
            checkpoints,
            info,
            engine,
            interpreter,
            depth,
            false,
        ),
    ensures
        traced_accounts == plain_accounts,
        traced is Ok <==> plain is Ok,
        found is Accepted ==> same_but_trace(traced, plain),
{
    if found is Accepted {
        lemma_tracing_unobserved::<ExecutiveTracer, NoopTracer, E, V>(
            traced,
            traced_accounts,
            true,
            Seq::empty(),
            plain,
            plain_accounts,
            false,
            Seq::empty(),
            t,
            before,
            checkpoints,
            info,
            engine,
            interpreter,
            depth,
        );
    }
}

/// Checks a transaction against its sender's nonce and balance, the gas that
/// its inclusion costs, and the block. Returns the price of all its gas where
/// nothing stands against it.
pub fn check_transaction(
    t: &SignedTransaction,
    nonce: U256,
    balance: U256,
    base_gas_required: U256,
    info: &EnvInfo,
    check_nonce: bool,
) -> (r: Result<U256, ExecutionError>)
    ensures
        match r {
            Ok(gas_cost) => verdict(*t, nonce@, balance@, base_gas_required@, *info, check_nonce)
                is Accepted && gas_cost@ == t.gas@ * t.gas_price@,
            Err(error) => reports(
                error,
                verdict(*t, nonce@, balance@, base_gas_required@, *info, check_nonce),
            ),
        },
{
    if t.sender.is_none() {
        return Err(ExecutionError::TransactionMalformed("Transaction malformed".to_owned()));
    }
    if t.gas.lt(&base_gas_required) {
        return Err(ExecutionError::NotEnoughBaseGas { required: base_gas_required, got: t.gas });
    }
    if check_nonce && t.nonce != nonce {
        return Err(ExecutionError::InvalidNonce { expected: nonce, got: t.nonce });
    }
    let fits = match info.gas_used.checked_add(t.gas) {
        Some(sum) => sum.le(&info.gas_limit),
        None => false,
    };
    if !fits {
        return Err(
            ExecutionError::BlockGasLimitReached {
                gas_limit: info.gas_limit,
                gas_used: info.gas_used,
                gas: t.gas,
            },
        );
    }
    let gas_cost: U512 = t.gas.full_mul(t.gas_price);
    proof {
        lemma_product_bound(t.gas@ as int, t.gas_price@ as int, pow2_256());
        assert(pow2_256() * pow2_256() == pow2_512());
        assert((pow2_256() - 1) * (pow2_256() - 1) + pow2_256() < pow2_512());
    }
    let total_cost: U512 = U512::from_u256(t.value).add(gas_cost);
    let funds: U512 = U512::from_u256(balance);
    if funds.lt(&total_cost) {
        return Err(ExecutionError::NotEnoughCash { required: total_cost, got: funds });
    }
    Ok(gas_cost.low_u256())
}

/// The executive.
pub struct Executive<'a, E, V> {
    /// The world state.
    pub state: &'a mut State,
    /// The block that the transaction is in.
    pub info: &'a EnvInfo,
    /// The consensus engine.
    pub engine: &'a E,
    /// The interpreter.
    pub vm_factory: &'a V,
    /// How deeply this executive is nested; the outermost is at depth zero.
    pub depth: usize,
}

/// Runs the interpreter in a thread of its own, and so on a fresh stack:
/// calls `crossbeam::scope`, `ScopedThreadBuilder::spawn` and
/// `ScopedJoinHandle::join`, and in the thread `Evm::exec`. Where the system
/// gives no thread, nothing has run, and the parameters come back.
///
/// Not proved: that `Ok` holds what the interpreter returned in the thread,
/// with the view as the interpreter left it, so that the interpreter's own
/// contract holds of both; and that with `Err` the interpreter was not
/// called, so that the view is as it was.
#[verifier::external_body]
fn exec_on_fresh_stack<T: Tracer, E: Engine, V: Evm>(
    vm: &V,
    params: ActionParams,
    ext: &mut Externalities<'_, T, E, V>,
) -> (r: Result<crate::evm::Result, ActionParams>)
    requires
        old(ext).wf(),
    ensures
        match r {
            Ok(res) => (res, *final(ext)) == vm.run(params, *old(ext)) && final(ext).follows(
                *old(ext),
            ) && (res matches Ok(gas_left) ==> gas_left@ <= params.gas@),
            Err(back) => back == params && *final(ext) == *old(ext),
        },
{
    let mut slot = Some(params);
    let joined = crossbeam::scope(
        |scope|
            scope.builder().spawn(|_| vm.exec(slot.take().unwrap(), ext)).ok().map(
                |handle| handle.join(),
            ),
    );
    match joined.unwrap() {
        Some(result) => Ok(result.unwrap()),
        None => Err(slot.unwrap()),
    }
}

impl<'a, E: Engine, V: Evm> Executive<'a, E, V> {
    /// An executive for the outermost call.
    pub fn new(state: &'a mut State, info: &'a EnvInfo, engine: &'a E, vm_factory: &'a V) -> (r:
        Self)
        ensures
            r.depth == 0,
            *r.state == *old(state),
            *final(r.state) == *final(state),
            r.info == info,
            r.engine == engine,
            r.vm_factory == vm_factory,
    {
        Executive { state, info, engine, vm_factory, depth: 0 }
    }

    /// An executive for a call nested in one at `parent_depth`.
    pub fn from_parent(
        state: &'a mut State,
        info: &'a EnvInfo,
        engine: &'a E,
        vm_factory: &'a V,
        parent_depth: usize,
    ) -> (r: Self)
        requires
            parent_depth < usize::MAX,
        ensures
            r.depth == parent_depth + 1,
            *r.state == *old(state),
            *final(r.state) == *final(state),
            r.info == info,
            r.engine == engine,
            r.vm_factory == vm_factory,
    {
        Executive { state, info, engine, vm_factory, depth: parent_depth + 1 }
    }

    /// The view of the state for the code of one call. The state moves into
    /// the view: until `resume` brings it back, this executive holds a state
    /// without accounts.
    pub fn as_externalities<T: Tracer>(
        &mut self,
        origin_info: OriginInfo,
        substate: Substate,
        policy: OutputPolicy,
        output: BytesRef,
        trace_output: Option<Vec<u8>>,
        tracer: T,
    ) -> (ext: Externalities<'a, T, E, V>)
        ensures
            ext == Externalities::holding(
                *old(self).state,
                old(self).info,
                old(self).engine,
                old(self).vm_factory,
                old(self).depth,
                origin_info,
                substate,
                old(self).engine.schedule_of(old(self).info),
                policy,
                output,
                trace_output,
                tracer,
            ),
            ext.state() == *old(self).state,
            ext.block() == *old(self).info,
            ext.engine() == *old(self).engine,
            ext.interpreter() == *old(self).vm_factory,
            ext.nesting() == old(self).depth,
            ext.origin() == origin_info,
            ext.substate() == substate,
            ext.rules() == old(self).engine.schedule_of(old(self).info),
            ext.policy() == policy,
            ext.buffer() == output,
            ext.trace_buffer() == trace_output,
            ext.observer() == tracer,
            final(self).state.wf(),
            final(self).state.accounts() == Map::<Address, AccountView>::empty(),
            final(self).state.supply() == 0,
            final(self).state.checkpoints() == Seq::<StateView>::empty(),
            *final(final(self).state) == *final(old(self).state),
            final(self).info == old(self).info,
            final(self).engine == old(self).engine,
            final(self).vm_factory == old(self).vm_factory,
            final(self).depth == old(self).depth,
    {
        let mut state = State::new();
        core::mem::swap(self.state, &mut state);
        Externalities::new(
            state,
            self.info,
            self.engine,
            self.vm_factory,
            self.depth,
            origin_info,
            substate,
            policy,
            output,
            trace_output,
            tracer,
        )
    }

    /// Takes the state back from a view, and hands out what else the view
    /// held: the substate, the caller's buffer, the observer's copy of what
    /// was returned, and the observer.
    pub fn resume<T: Tracer>(&mut self, ext: Externalities<'a, T, E, V>) -> (r: (
        Substate,
        BytesRef,
        Option<Vec<u8>>,
        T,
    ))
        ensures
            *final(self).state == ext.state(),
            r.0 == ext.substate(),
            r.1 == ext.buffer(),
            r.2 == ext.trace_buffer(),
            r.3 == ext.observer(),
            *final(final(self).state) == *final(old(self).state),
            final(self).info == old(self).info,
            final(self).engine == old(self).engine,
            final(self).vm_factory == old(self).vm_factory,
            final(self).depth == old(self).depth,
    {
        let (state, substate, output, trace_output, tracer) = ext.into_parts();
        *self.state = state;
        (substate, output, trace_output, tracer)
    }

    /// Runs the interpreter on `params`, once: in a thread of its own where
    /// `uses_fresh_stack` says so of the depth and the system gives one, and
    /// where it is called otherwise. What it promises does not depend on the
    /// stack: it is what every interpreter promises of one run on the view
    /// made of what is passed here.
    pub fn exec_vm<T: Tracer>(
        &mut self,
        params: ActionParams,
        unconfirmed_substate: &mut Substate,
        policy: OutputPolicy,
        output: &mut BytesRef,
        trace_output: &mut Option<Vec<u8>>,
        tracer: &mut T,
    ) -> (res: crate::evm::Result)
        requires
            old(self).state.wf(),
            old(unconfirmed_substate).wf(),
        ensures
            final(self).state.wf(),
            final(self).state.checkpoints() == old(self).state.checkpoints(),
            final(self).state.supply() <= old(self).state.supply(),
            *final(final(self).state) == *final(old(self).state),
            final(self).info == old(self).info,
            final(self).engine == old(self).engine,
            final(self).vm_factory == old(self).vm_factory,
            final(self).depth == old(self).depth,
            final(unconfirmed_substate).wf(),
            final(output).is_fixed() == old(output).is_fixed(),
            final(trace_output).is_some() == old(trace_output).is_some(),
            res matches Ok(gas_left) ==> gas_left@ <= params.gas@,
            ({
                let handed = Externalities::holding(
                    *old(self).state,
                    old(self).info,
                    old(self).engine,
                    old(self).vm_factory,
                    old(self).depth,
                    origin_of(params),
                    *old(unconfirmed_substate),
                    old(self).engine.schedule_of(old(self).info),
                    policy,
                    *old(output),
                    *old(trace_output),
                    *old(tracer),
                );
                let outcome = old(self).vm_factory.run(params, handed);
                &&& res == outcome.0
                &&& *final(self).state == outcome.1.state()
                &&& *final(unconfirmed_substate) == outcome.1.substate()
                &&& *final(output) == outcome.1.buffer()
                &&& *final(trace_output) == outcome.1.trace_buffer()
                &&& *final(tracer) == outcome.1.observer()
            }),
    {
        let vm = self.vm_factory;
        let origin_info = OriginInfo::from(&params);
        let mut substate = Substate::new();
        let mut buffer = BytesRef::Flexible(Vec::new());
        let mut copy: Option<Vec<u8>> = None;
        let mut observer = tracer.subtracer();
        core::mem::swap(unconfirmed_substate, &mut substate);
        core::mem::swap(output, &mut buffer);
        core::mem::swap(trace_output, &mut copy);
        core::mem::swap(tracer, &mut observer);
        let mut ext = self.as_externalities(origin_info, substate, policy, buffer, copy, observer);
        let res = if uses_fresh_stack(self.depth) {
            match exec_on_fresh_stack(vm, params, &mut ext) {
                Ok(res) => res,
                Err(back) => vm.exec(back, &mut ext),
            }
        } else {
            vm.exec(params, &mut ext)
        };
        let (substate, buffer, copy, observer) = self.resume(ext);
        *unconfirmed_substate = substate;
        *output = buffer;
        *trace_output = copy;
        *tracer = observer;
        res
    }

    /// Settles a call or creation whose result is known: an error that
    /// reverts puts the state back to the newest checkpoint and drops what
    /// the call gathered; every other result keeps the state and takes over
    /// what the call gathered. Either way the checkpoint is closed.
    pub fn enact_result(
        &mut self,
        result: &crate::evm::Result,
        substate: &mut Substate,
        un_substate: Substate,
    )
        requires
            old(self).state.wf(),
            old(self).state.checkpoints().len() > 0,
            old(substate).wf(),
            un_substate.wf(),
        ensures
            final(self).state.wf(),
            final(self).state.checkpoints() == old(self).state.checkpoints().drop_last(),
            *final(final(self).state) == *final(old(self).state),
            final(self).info == old(self).info,
            final(self).engine == old(self).engine,
            final(self).vm_factory == old(self).vm_factory,
            final(self).depth == old(self).depth,
            final(substate).wf(),
            reverts(*result) ==> final(self).state@ == old(self).state.checkpoints().last()
                && *final(substate) == *old(substate),
            !reverts(*result) ==> final(self).state@ == old(self).state@ && accrued(
                *old(substate),
                un_substate,
                *final(substate),
            ),
    {
        match *result {
            Ok(_) | Err(Error::Internal) => {
                self.state.clear_snapshot();
                substate.accrue(un_substate);
            },
            Err(_) => {
                self.state.revert_snapshot();
            },
        }
    }

    /// Calls the contract that `params` names, with the value, gas and input
    /// given there. The transaction is not settled here: nothing is refunded
    /// and no account destroyed.
    ///
    /// The value moves first. A built-in contract at the code's address runs
    /// where the gas pays for it, and fails for want of gas where it does
    /// not; either way its call is traced only at depth zero. Code, where
    /// there is any, runs in the interpreter. With neither, the call is done
    /// when the value has moved.
    ///
    /// A result that reverts leaves the state and the substate as they were.
    pub fn call<T: Tracer>(
        &mut self,
        params: ActionParams,
        substate: &mut Substate,
        output: &mut BytesRef,
        tracer: &mut T,
    ) -> (res: crate::evm::Result)
        requires
            old(self).state.wf(),
            old(substate).wf(),
            old(self).state.balance_of(params.sender) >= params.value.moved(),
        ensures
            final(self).state.wf(),
            final(self).state.checkpoints() == old(self).state.checkpoints(),
            final(self).state.supply() <= old(self).state.supply(),
            *final(final(self).state) == *final(old(self).state),
            final(self).info == old(self).info,
            final(self).engine == old(self).engine,
            final(self).vm_factory == old(self).vm_factory,
            final(self).depth == old(self).depth,
            final(substate).wf(),
            final(output).is_fixed() == old(output).is_fixed(),
            final(tracer).recording() == old(tracer).recording(),
            res matches Ok(gas_left) ==> gas_left@ <= params.gas@,
            reverts(res) ==> final(self).state@ == old(self).state@ && *final(substate) == *old(
                substate,
            ),
            call_comes_to::<T, E, V>(
                res,
                *old(substate),
                *final(substate),
                final(self).state.accounts(),
                *final(output),
                old(tracer).recorded(),
                final(tracer).recorded(),
                params,
                old(self).state.accounts(),
                old(self).state.supply(),
                old(self).state.checkpoints(),
                *old(self).info,
                *old(self).engine,
                *old(self).vm_factory,
                old(self).depth,
                old(tracer).recording(),
                *old(output),
            ),
    {
        self.state.snapshot();
        match params.value {
            ActionValue::Transfer(val) => {
                self.state.transfer_balance(&params.sender, &params.address, &val);
            },
            ActionValue::Apparent(_) => {},
        }
        let delegate_call = params.code_address != params.address;
        let depth = self.depth;
        if self.engine.is_builtin(&params.code_address) {
            let nothing: Vec<u8> = Vec::new();
            let data: &[u8] = match &params.data {
                Some(d) => d.as_slice(),
                None => nothing.as_slice(),
            };
            let trace_info = tracer.prepare_trace_call(&params);
            let cost = self.engine.cost_of_builtin(&params.code_address, data);
            if cost.le(&params.gas) {
                let result = self.engine.execute_builtin(&params.code_address, data);
                output.write(result.as_slice());
                self.state.clear_snapshot();
                if depth == 0 {
                    let mut trace_output = tracer.prepare_trace_output();
                    if trace_output.is_some() {
                        trace_output = Some(output.to_vec());
                    }
                    tracer.trace_call(
                        trace_info,
                        cost,
                        trace_output,
                        depth,
                        Vec::new(),
                        delegate_call,
                    );
                }
                let gas_left = params.gas.sub(cost);
                proof {
                    if old(tracer).recording() && !delegate_call && depth == 0 {
                        assert(tracer.recorded().drop_last() =~= old(tracer).recorded());
                        assert(plain_call_traced(
                            old(tracer).recorded(),
                            tracer.recorded(),
                            params,
                            depth,
                            Ok(gas_left),
                            output.content(),
                        ));
                    }
                }
                Ok(gas_left)
            } else {
                self.state.revert_snapshot();
                if depth == 0 {
                    tracer.trace_failed_call(trace_info, depth, Vec::new(), delegate_call);
                }
                proof {
                    if old(tracer).recording() && !delegate_call && depth == 0 {
                        assert(tracer.recorded().drop_last() =~= old(tracer).recorded());
                        assert(plain_call_traced(
                            old(tracer).recorded(),
                            tracer.recorded(),
                            params,
                            depth,
                            Err(Error::OutOfGas),
                            Seq::empty(),
                        ));
                    }
                }
                Err(Error::OutOfGas)
            }
        } else {
            let trace_info = tracer.prepare_trace_call(&params);
            let mut trace_output = tracer.prepare_trace_output();
            let mut subtracer = tracer.subtracer();
            let gas = params.gas;
            if params.code.is_some() {
                let mut unconfirmed_substate = Substate::new();
                let ghost handed = Externalities::holding(
                    *self.state,
                    self.info,
                    self.engine,
                    self.vm_factory,
                    self.depth,
                    origin_of(params),
                    unconfirmed_substate,
                    self.engine.schedule_of(self.info),
                    OutputPolicy::Return,
                    *output,
                    trace_output,
                    subtracer,
                );
                proof {
                    Externalities::lemma_holding(
                        *self.state,
                        self.info,
                        self.engine,
                        self.vm_factory,
                        self.depth,
                        origin_of(params),
                        unconfirmed_substate,
                        self.engine.schedule_of(self.info),
                        OutputPolicy::Return,
                        *output,
                        trace_output,
                        subtracer,
                    );
                }
                proof {
                    assert(handed.state()@ == (StateView {
                        accounts: value_moved(old(self).state.accounts(), params),
                        supply: old(self).state@.supply,
                    }));
                    assert(is_handed(
                        handed,
                        value_moved(old(self).state.accounts(), params),
                        old(self).state@,
                        old(self).state.checkpoints(),
                        *old(self).info,
                        *old(self).engine,
                        *old(self).vm_factory,
                        old(self).depth,
                        params,
                        OutputPolicy::Return,
                        *old(output),
                        old(tracer).recording(),
                    ));
                }
                let res = self.exec_vm(
                    params,
                    &mut unconfirmed_substate,
                    OutputPolicy::Return,
                    output,
                    &mut trace_output,
                    &mut subtracer,
                );
                let traces = subtracer.traces();
                match res {
                    Ok(gas_left) => {
                        tracer.trace_call(
                            trace_info,
                            gas.sub(gas_left),
                            trace_output,
                            depth,
                            traces,
                            delegate_call,
                        );
                    },
                    Err(_) => {
                        tracer.trace_failed_call(trace_info, depth, traces, delegate_call);
                    },
                }
                proof {
                    if old(tracer).recording() && !delegate_call {
                        assert(tracer.recorded().drop_last() =~= old(tracer).recorded());
                        assert(one_more(old(tracer).recorded(), tracer.recorded()));
                        assert(is_call_trace(tracer.recorded().last(), params, depth, res));
                    }
                }
                self.enact_result(&res, substate, unconfirmed_substate);
                proof {
                    let outcome = old(self).vm_factory.run(params, handed);
                    assert(ran(
                        res,
                        *old(substate),
                        *substate,
                        self.state.accounts(),
                        outcome,
                        old(self).state.accounts(),
                    ));
                }
                res
            } else {
                self.state.clear_snapshot();
                tracer.trace_call(
                    trace_info,
                    U256::zero(),
                    trace_output,
                    depth,
                    Vec::new(),
                    delegate_call,
                );
                proof {
                    if old(tracer).recording() && !delegate_call {
                        assert(tracer.recorded().drop_last() =~= old(tracer).recorded());
                        assert(tracer.recorded().last().result matches Res::Call(r) && r.output@
                            =~= Seq::<u8>::empty());
                        assert(plain_call_traced(
                            old(tracer).recorded(),
                            tracer.recorded(),
                            params,
                            depth,
                            Ok(gas),
                            Seq::empty(),
                        ));
                    }
                }
                Ok(gas)
            }
        }
    }

    /// Creates the contract that `params` names, from the code given there.
    /// The transaction is not settled here: nothing is refunded and no
    /// account destroyed.
    ///
    /// The address gets a fresh contract account that holds what the address
    /// held before and the value sent; then the code runs in the interpreter.
    ///
    /// A result that reverts leaves the state and the substate as they were.
    pub fn create<T: Tracer>(
        &mut self,
        params: ActionParams,
        substate: &mut Substate,
        tracer: &mut T,
    ) -> (res: crate::evm::Result)
        requires
            old(self).state.wf(),
            old(substate).wf(),
            old(self).state.balance_of(params.sender) >= params.value.moved(),
        ensures
            final(self).state.wf(),
            final(self).state.checkpoints() == old(self).state.checkpoints(),
            final(self).state.supply() <= old(self).state.supply(),
            *final(final(self).state) == *final(old(self).state),
            final(self).info == old(self).info,
            final(self).engine == old(self).engine,
            final(self).vm_factory == old(self).vm_factory,
            final(self).depth == old(self).depth,
            final(substate).wf(),
            final(tracer).recording() == old(tracer).recording(),
            res matches Ok(gas_left) ==> gas_left@ <= params.gas@,
            reverts(res) ==> final(self).state@ == old(self).state@ && *final(substate) == *old(
                substate,
            ),
            creation_comes_to::<T, E, V>(
                res,
                *old(substate),
                *final(substate),
                final(self).state.accounts(),
                old(tracer).recorded(),
                final(tracer).recorded(),
                params,
                old(self).state.accounts(),
                old(self).state.supply(),
                old(self).state.checkpoints(),
                *old(self).info,
                *old(self).engine,
                *old(self).vm_factory,
                old(self).depth,
                old(tracer).recording(),
            ),
    {
        proof {
            self.state.lemma_balance_within_supply(params.sender);
        }
        self.state.snapshot();
        let mut unconfirmed_substate = Substate::new();
        match params.value {
            ActionValue::Transfer(val) => {
                self.state.sub_balance(&params.sender, &val);
                let prev_bal = self.state.balance(&params.address);
                proof {
                    self.state.lemma_balance_within_supply(params.address);
                }
                self.state.new_contract(&params.address, val.add(prev_bal));
            },
            ActionValue::Apparent(_) => {
                let prev_bal = self.state.balance(&params.address);
                proof {
                    self.state.lemma_balance_within_supply(params.address);
                }
                self.state.new_contract(&params.address, prev_bal);
            },
        }
        let trace_info = tracer.prepare_trace_create(&params);
        let mut trace_output = tracer.prepare_trace_output();
        let mut subtracer = tracer.subtracer();
        let gas = params.gas;
        let created = params.address;
        let depth = self.depth;
        let mut no_output = BytesRef::Flexible(Vec::new());
        let ghost handed = Externalities::holding(
            *self.state,
            self.info,
            self.engine,
            self.vm_factory,
            self.depth,
            origin_of(params),
            unconfirmed_substate,
            self.engine.schedule_of(self.info),
            OutputPolicy::InitContract,
            no_output,
            trace_output,
            subtracer,
        );
        proof {
            Externalities::lemma_holding(
                *self.state,
                self.info,
                self.engine,
                self.vm_factory,
                self.depth,
                origin_of(params),
                unconfirmed_substate,
                self.engine.schedule_of(self.info),
                OutputPolicy::InitContract,
                no_output,
                trace_output,
                subtracer,
            );
        }
        proof {
            assert(self.state.accounts() =~= contract_placed(old(self).state.accounts(), params));
            assert(handed.state()@ == (StateView {
                accounts: contract_placed(old(self).state.accounts(), params),
                supply: old(self).state@.supply,
            }));
            assert(is_handed(
                handed,
                contract_placed(old(self).state.accounts(), params),
                old(self).state@,
                old(self).state.checkpoints(),
                *old(self).info,
                *old(self).engine,
                *old(self).vm_factory,
                old(self).depth,
                params,
                OutputPolicy::InitContract,
                handed.buffer(),
                old(tracer).recording(),
            ));
        }
        let res = self.exec_vm(
            params,
            &mut unconfirmed_substate,
            OutputPolicy::InitContract,
            &mut no_output,
            &mut trace_output,
            &mut subtracer,
        );
        let traces = subtracer.traces();
        match res {
            Ok(gas_left) => {
                tracer.trace_create(
                    trace_info,
                    gas.sub(gas_left),
                    trace_output,
                    created,
                    depth,
                    traces,
                );
            },
            Err(_) => {
                tracer.trace_failed_create(trace_info, depth, traces);
            },
        }
        proof {
            if old(tracer).recording() {
                assert(tracer.recorded().drop_last() =~= old(tracer).recorded());
                assert(one_more(old(tracer).recorded(), tracer.recorded()));
                assert(is_create_trace(tracer.recorded().last(), params, depth, res));
            }
        }
        self.enact_result(&res, substate, unconfirmed_substate);
        proof {
            let outcome = old(self).vm_factory.run(params, handed);
            assert(ran(
                res,
                *old(substate),
                *substate,
                self.state.accounts(),
                outcome,
                old(self).state.accounts(),
            ));
        }
        res
    }

    /// Settles a transaction whose call or creation came to `result`: refunds
    /// the sender, pays the block's author, removes the accounts that
    /// destroyed themselves and writes the record. Only a fault of the
    /// interpreter's own makes it fail.
    pub fn finalize(
        &mut self,
        t: &SignedTransaction,
        substate: Substate,
        result: crate::evm::Result,
        output: Vec<u8>,
        trace: Option<Trace>,
    ) -> (res: ExecutionResult)
        requires
            old(self).state.wf(),
            substate.wf(),
            t.sender.is_some(),
            result matches Ok(gas_left) ==> gas_left@ <= t.gas@,
            old(self).state.supply() + t.gas@ * t.gas_price@ < pow2_256(),
            old(self).info.gas_used@ + t.gas@ < pow2_256(),
        ensures
            final(self).state.wf(),
            final(self).state.checkpoints() == old(self).state.checkpoints(),
            final(self).state.supply() <= old(self).state.supply() + t.gas@ * t.gas_price@,
            *final(final(self).state) == *final(old(self).state),
            final(self).info == old(self).info,
            final(self).engine == old(self).engine,
            final(self).vm_factory == old(self).vm_factory,
            final(self).depth == old(self).depth,
            final(self).state.accounts() == settled_accounts(
                old(self).state.accounts(),
                t.sender.unwrap(),
                old(self).info.author,
                t.gas_price@,
                t.gas@,
                result,
                old(self).engine.schedule_of(old(self).info),
                substate,
            ),
            match res {
                Ok(executed) => !(result is Err && result->Err_0 is Internal) && records(
                    executed,
                    t.gas,
                    old(self).info.gas_used@,
                    result,
                    old(self).engine.schedule_of(old(self).info),
                    substate,
                    output,
                    trace,
                ),
                Err(error) => result is Err && result->Err_0 is Internal && error is Internal,
            },
    {
        let schedule = self.engine.schedule(self.info);
        let gas_left_prerefund = match result {
            Ok(x) => x,
            Err(_) => U256::zero(),
        };
        let settlement = settle_gas(
            t.gas,
            gas_left_prerefund,
            &schedule,
            substate.sstore_clears_count,
            substate.suicides.len(),
        );
        proof {
            lemma_product_monotonic(settlement.gas_left@ as int, t.gas@ as int, t.gas_price@ as int);
            lemma_product_monotonic(settlement.gas_used@ as int, t.gas@ as int, t.gas_price@ as int);
            assert((settlement.gas_left@ + settlement.gas_used@) * t.gas_price@
                == settlement.gas_left@ * t.gas_price@ + settlement.gas_used@ * t.gas_price@)
                by (nonlinear_arith);
        }
        let refund_value = settlement.gas_left.mul(t.gas_price);
        let fees_value = settlement.gas_used.mul(t.gas_price);
        let sender = match t.sender {
            Some(s) => s,
            None => Address::zero(),
        };
        self.state.add_balance(&sender, &refund_value);
        self.state.add_balance(&self.info.author, &fees_value);
        let ghost credited_accounts = self.state.accounts();
        let ghost credited_supply = self.state.supply();
        let mut i: usize = 0;
        while i < substate.suicides.len()
            invariant
                i <= substate.suicides@.len(),
                self.state.wf(),
                self.state.checkpoints() == old(self).state.checkpoints(),
                self.state.supply() <= credited_supply,
                self.state.accounts() == without(
                    credited_accounts,
                    substate.suicides@.subrange(0, i as int),
                ),
                *final(self.state) == *final(old(self).state),
                self.info == old(self).info,
                self.engine == old(self).engine,
                self.vm_factory == old(self).vm_factory,
                self.depth == old(self).depth,
            decreases substate.suicides@.len() - i,
        {
            self.state.kill_account(&substate.suicides[i]);
            proof {
                assert(substate.suicides@.subrange(0, i + 1).drop_last()
                    =~= substate.suicides@.subrange(0, i as int));
            }
            i = i + 1;
        }
        proof {
            assert(substate.suicides@.subrange(0, i as int) =~= substate.suicides@);
        }
        match result {
            Err(Error::Internal) => Err(ExecutionError::Internal),
            Err(_) => Ok(
                Executed {
                    gas: t.gas,
                    gas_used: t.gas,
                    refunded: U256::zero(),
                    cumulative_gas_used: self.info.gas_used.add(t.gas),
                    logs: Vec::new(),
                    contracts_created: Vec::new(),
                    output,
                    trace,
                },
            ),
            Ok(_) => Ok(
                Executed {
                    gas: t.gas,
                    gas_used: settlement.gas_used,
                    refunded: settlement.refunded,
                    cumulative_gas_used: self.info.gas_used.add(settlement.gas_used),
                    logs: substate.logs,
                    contracts_created: substate.contracts_created,
                    output,
                    trace,
                },
            ),
        }
    }

    /// What the checks before execution find of `t`, for the state and the
    /// block that this executive works on.
    pub open spec fn verdict_on(&self, t: SignedTransaction, check_nonce: bool) -> Verdict {
        let sender = match t.sender {
            Some(s) => s,
            None => Address { hi: 0, lo: 0 },
        };
        verdict(
            t,
            self.state.nonce_of(sender),
            self.state.balance_of(sender),
            base_gas(t.action, t.data@, self.engine.schedule_of(self.info)),
            *self.info,
            check_nonce,
        )
    }

    /// Executes a transaction, with a trace where `options` asks for one.
    pub fn transact(&mut self, t: &SignedTransaction, options: TransactOptions) -> (res:
        ExecutionResult)
        requires
            old(self).state.wf(),
            t.sender matches Some(sender) ==> old(self).state.nonce_of(sender) + 1 < pow2_256(),
        ensures
            final(self).state.wf(),
            final(self).state.checkpoints() == old(self).state.checkpoints(),
            final(self).state.supply() <= old(self).state.supply(),
            *final(final(self).state) == *final(old(self).state),
            final(self).info == old(self).info,
            final(self).engine == old(self).engine,
            final(self).vm_factory == old(self).vm_factory,
            final(self).depth == old(self).depth,
            transaction_comes_to::<E, V>(
                res,
                final(self).state.accounts(),
                *t,
                old(self).verdict_on(*t, options.check_nonce),
                old(self).state@,
                old(self).state.checkpoints(),
                *old(self).info,
                *old(self).engine,
                *old(self).vm_factory,
                old(self).depth,
                options.tracing,
            ),
            match res {
                Ok(executed) => {
                    &&& old(self).verdict_on(*t, options.check_nonce) is Accepted
                    &&& executed.gas == t.gas
                    &&& executed.gas_used@ + executed.refunded@ <= t.gas@
                    &&& executed.refunded@ <= executed.gas_used@
                    &&& executed.cumulative_gas_used@ == old(self).info.gas_used@
                        + executed.gas_used@
                    &&& old(self).depth == 0 ==> executed.trace.is_some() == options.tracing
                    &&& !options.tracing ==> executed.trace.is_none()
                },
                Err(error) => if old(self).verdict_on(*t, options.check_nonce) is Accepted {
                    error is Internal
                } else {
                    &&& reports(error, old(self).verdict_on(*t, options.check_nonce))
                    &&& *final(self).state == *old(self).state
                },
            },
    {
        let check = options.check_nonce;
        if options.tracing {
            self.transact_with_tracer(t, check, ExecutiveTracer::new())
        } else {
            self.transact_with_tracer(t, check, NoopTracer)
        }
    }

    /// Executes a transaction under the eyes of `tracer`.
    ///
    /// The transaction is checked first; one that fails a check changes
    /// nothing. After the checks the sender's nonce goes up by one and the
    /// sender pays for all the gas, and from there on the transaction does not
    /// fail but for a fault of the interpreter's own: it creates or calls with
    /// the gas that its bare inclusion has not taken, and is then settled.
    pub fn transact_with_tracer<T: Tracer>(
        &mut self,
        t: &SignedTransaction,
        check_nonce: bool,
        tracer: T,
    ) -> (res: ExecutionResult)
        requires
            old(self).state.wf(),
            t.sender matches Some(sender) ==> old(self).state.nonce_of(sender) + 1 < pow2_256(),
        ensures
            final(self).state.wf(),
            final(self).state.checkpoints() == old(self).state.checkpoints(),
            final(self).state.supply() <= old(self).state.supply(),
            *final(final(self).state) == *final(old(self).state),
            final(self).info == old(self).info,
            final(self).engine == old(self).engine,
            final(self).vm_factory == old(self).vm_factory,
            final(self).depth == old(self).depth,
            old(self).verdict_on(*t, check_nonce) is Accepted ==> transacted::<T, E, V>(
                res,
                final(self).state.accounts(),
                *t,
                old(self).state@,
                old(self).state.checkpoints(),
                *old(self).info,
                *old(self).engine,
                *old(self).vm_factory,
                old(self).depth,
                tracer.recording(),
                tracer.recorded(),
            ),
            match res {
                Ok(executed) => {
                    &&& old(self).verdict_on(*t, check_nonce) is Accepted
                    &&& executed.gas == t.gas
                    &&& executed.gas_used@ + executed.refunded@ <= t.gas@
                    &&& executed.refunded@ <= executed.gas_used@
                    &&& executed.cumulative_gas_used@ == old(self).info.gas_used@
                        + executed.gas_used@
                    &&& tracer.recorded().len() == 0 && !tracer.recording()
                        ==> executed.trace.is_none()
                    &&& tracer.recorded().len() == 0 && tracer.recording() && old(self).depth == 0
                        ==> executed.trace.is_some()
                },
                Err(error) => if old(self).verdict_on(*t, check_nonce) is Accepted {
                    error is Internal
                } else {
                    &&& reports(error, old(self).verdict_on(*t, check_nonce))
                    &&& *final(self).state == *old(self).state
                },
            },
    {
        let ghost initial = tracer;
        let mut tracer = tracer;
        let sender = match t.sender() {
            Some(s) => s,
            None => Address::zero(),
        };
        let nonce = self.state.nonce(&sender);
        let schedule = self.engine.schedule(self.info);
        let base_gas_required = t.gas_required(&schedule);
        let balance = self.state.balance(&sender);
        let gas_cost = match check_transaction(
            t,
            nonce,
            balance,
            base_gas_required,
            self.info,
            check_nonce,
        ) {
            Ok(cost) => cost,
            Err(error) => {
                return Err(error);
            },
        };
        let init_gas = t.gas.sub(base_gas_required);
        proof {
            self.state.lemma_balance_within_supply(sender);
        }
        self.state.inc_nonce(&sender);
        self.state.sub_balance(&sender, &gas_cost);
        let ghost paid = self.state.accounts();
        let ghost paid_state = self.state@;
        proof {
            assert(paid == prepaid(old(self).state@.accounts, sender, gas_cost@));
        }
        let mut substate = Substate::new();
        let ghost fresh = substate;
        let ghost used_params: ActionParams;
        let ghost buffer: BytesRef;
        let ghost left: BytesRef;
        let (gas_left, output) = match t.action {
            TransactionAction::Create => {
                let new_address = contract_address(&sender, &nonce);
                let params = ActionParams {
                    code_address: new_address,
                    address: new_address,
                    sender: sender,
                    origin: sender,
                    gas: init_gas,
                    gas_price: t.gas_price,
                    value: ActionValue::Transfer(t.value),
                    code: Some(copy_bytes(t.data.as_slice())),
                    data: None,
                };
                let nothing: Vec<u8> = Vec::new();
                proof {
                    used_params = params;
                    buffer = BytesRef::Flexible(nothing);
                    left = buffer;
                }
                (self.create(params, &mut substate, &mut tracer), nothing)
            },
            TransactionAction::Call(address) => {
                let params = ActionParams {
                    code_address: address,
                    address: address,
                    sender: sender,
                    origin: sender,
                    gas: init_gas,
                    gas_price: t.gas_price,
                    value: ActionValue::Transfer(t.value),
                    code: self.state.code(&address),
                    data: Some(copy_bytes(t.data.as_slice())),
                };
                let mut out = BytesRef::Flexible(Vec::new());
                proof {
                    used_params = params;
                    buffer = out;
                }
                let result = self.call(params, &mut substate, &mut out, &mut tracer);
                proof {
                    left = out;
                }
                (result, out.into_vec())
            },
        };
        let ghost recorded = tracer.recorded();
        let mut traces = tracer.traces();
        let trace = traces.pop();
        let ghost reached = self.state.accounts();
        let res = self.finalize(t, substate, gas_left, output, trace);
        proof {
            assert(settles(
                res,
                self.state.accounts(),
                *t,
                *old(self).info,
                old(self).engine.schedule_of(old(self).info),
                gas_left,
                substate,
                reached,
                left.content(),
            ));
            assert(is_transaction_params(
                used_params,
                *t,
                paid,
                nonce_in(old(self).state@.accounts, sender),
                old(self).engine.schedule_of(old(self).info),
            ));
            assert(paid_state.supply == (old(self).state@.supply - t.gas@ * t.gas_price@) as nat);
            assert(action_comes_to::<T, E, V>(
                t.action is Create,
                gas_left,
                fresh,
                substate,
                reached,
                left,
                initial.recorded(),
                recorded,
                used_params,
                paid,
                paid_state.supply,
                old(self).state.checkpoints(),
                *old(self).info,
                *old(self).engine,
                *old(self).vm_factory,
                old(self).depth,
                initial.recording(),
                buffer,
            ));
            assert(transacted::<T, E, V>(
                res,
                self.state.accounts(),
                *t,
                old(self).state@,
                old(self).state.checkpoints(),
                *old(self).info,
                *old(self).engine,
                *old(self).vm_factory,
                old(self).depth,
                initial.recording(),
                initial.recorded(),
            ));
        }
        res
    }
}

} // verus!
