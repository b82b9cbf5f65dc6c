//! What calls, creations and transactions come to, stated over the
//! accounts, the substate and the interpreter's run.

use vstd::prelude::*;
use crate::action_params::{ActionParams, ActionValue};
use crate::engine::Engine;
use crate::env_info::EnvInfo;
use crate::evm::{reverts, Error, Evm};
use crate::executed::{Executed, ExecutionResult};
use crate::executive::contract_address_bytes;
use crate::externalities::{origin_of, BytesRef, Externalities, OutputPolicy};
use crate::gas::{refund_bound, refund_of};
use crate::hash::Address;
use crate::schedule::Schedule;
use crate::state::{
    account_in, balance_in, empty_account, nonce_in, transferred, AccountView, StateView,
};
use crate::substate::{
    capped_sum, joined_once, lemma_logs_alike_joined, logs_alike, Substate,
};
use crate::trace::{describes_call, describes_create, Action, Res, Trace, Tracer};
use crate::transaction::Action as TransactionAction;
use crate::transaction::{base_gas, SignedTransaction};
use crate::uint::U256;

verus! {

/// The accounts after the value of `params` has moved, where it moves.
pub open spec fn value_moved(
    accounts: Map<Address, AccountView>,
    params: ActionParams,
) -> Map<Address, AccountView> {
    match params.value {
        ActionValue::Transfer(v) => transferred(accounts, params.sender, params.address, v@),
        ActionValue::Apparent(_) => accounts,
    }
}

/// Whether `after` is `before` with what `gathered` holds taken over.
pub open spec fn accrued(before: Substate, gathered: Substate, after: Substate) -> bool {
    &&& after.wf()
    &&& after.suicide_set() == before.suicide_set().union(gathered.suicide_set())
    &&& after.suicides@ == joined_once(before.suicides@, gathered.suicides@)
    &&& after.suicides@.len() >= before.suicides@.len()
    &&& after.logs@ == before.logs@ + gathered.logs@
    &&& after.contracts_created@ == before.contracts_created@ + gathered.contracts_created@
    &&& after.sstore_clears_count@ == capped_sum(
        before.sstore_clears_count@,
        gathered.sstore_clears_count@,
    )
}

/// Whether `after` holds one trace more than `before`.
pub open spec fn one_more(before: Seq<Trace>, after: Seq<Trace>) -> bool {
    &&& after.len() == before.len() + 1
    &&& after.drop_last() == before
}

/// Whether `trace` is the trace of the call that `params` asks for, made at
/// `depth`, with the result `res`.
pub open spec fn is_call_trace(
    trace: Trace,
    params: ActionParams,
    depth: usize,
    res: crate::evm::Result,
) -> bool {
    &&& trace.depth == depth
    &&& trace.action matches Action::Call(call) && describes_call(call, params)
    &&& match res {
        Ok(gas_left) => trace.result matches Res::Call(r) && r.gas_used@ == params.gas@
            - gas_left@,
        Err(_) => trace.result is FailedCall,
    }
}

/// Whether `trace` is the trace of the creation that `params` asks for, made
/// at `depth`, with the result `res`.
pub open spec fn is_create_trace(
    trace: Trace,
    params: ActionParams,
    depth: usize,
    res: crate::evm::Result,
) -> bool {
    &&& trace.depth == depth
    &&& trace.action matches Action::Create(create) && describes_create(create, params)
    &&& match res {
        Ok(gas_left) => trace.result matches Res::Create(r) && r.gas_used@ == params.gas@
            - gas_left@ && r.address == params.address,
        Err(_) => trace.result is FailedCreate,
    }
}

/// The accounts after `amount` was added to the balance of `address`.
pub open spec fn credited(
    accounts: Map<Address, AccountView>,
    address: Address,
    amount: nat,
) -> Map<Address, AccountView> {
    accounts.insert(
        address,
        AccountView {
            balance: balance_in(accounts, address) + amount,
            ..account_in(accounts, address)
        },
    )
}

/// The accounts without those whose addresses are listed.
pub open spec fn without(accounts: Map<Address, AccountView>, gone: Seq<Address>) -> Map<
    Address,
    AccountView,
>
    decreases gone.len(),
{
    if gone.len() == 0 {
        accounts
    } else {
        without(accounts, gone.drop_last()).remove(gone.last())
    }
}

/// The gas that is left to a transaction before refunds: what its call or
/// creation left, and nothing where that failed.
pub open spec fn gas_left_before_refund(result: crate::evm::Result) -> nat {
    match result {
        Ok(gas_left) => gas_left@,
        Err(_) => 0,
    }
}

/// The accounts at the end of a transaction: the sender has the price of the
/// gas that goes back, the block's author that of the gas used, and the
/// accounts that destroyed themselves are gone.
pub open spec fn settled_accounts(
    accounts: Map<Address, AccountView>,
    sender: Address,
    author: Address,
    gas_price: nat,
    gas: nat,
    result: crate::evm::Result,
    schedule: Schedule,
    substate: Substate,
) -> Map<Address, AccountView> {
    let left = gas_left_before_refund(result);
    let refunded = refund_of(
        gas,
        left,
        refund_bound(schedule, substate.sstore_clears_count@, substate.suicides@.len()),
    );
    let gas_left = left + refunded;
    let gas_used = (gas - gas_left) as nat;
    without(
        credited(credited(accounts, sender, gas_left * gas_price), author, gas_used * gas_price),
        substate.suicides@,
    )
}

/// Whether `executed` is the record of a transaction that offered `gas` and
/// whose call or creation came to `result`.
pub open spec fn records(
    executed: Executed,
    gas: U256,
    block_gas_used: nat,
    result: crate::evm::Result,
    schedule: Schedule,
    substate: Substate,
    output: Vec<u8>,
    trace: Option<Trace>,
) -> bool {
    &&& executed.gas == gas
    &&& executed.output == output
    &&& executed.trace == trace
    &&& executed.cumulative_gas_used@ == block_gas_used + executed.gas_used@
    &&& match result {
        Ok(gas_left) => {
            &&& executed.refunded@ == refund_of(
                gas@,
                gas_left@,
                refund_bound(schedule, substate.sstore_clears_count@, substate.suicides@.len()),
            )
            &&& executed.gas_used@ == gas@ - gas_left@ - executed.refunded@
            &&& executed.logs == substate.logs
            &&& executed.contracts_created == substate.contracts_created
        },
        Err(_) => {
            &&& executed.refunded@ == 0
            &&& executed.gas_used@ == gas@
            &&& executed.logs@.len() == 0
            &&& executed.contracts_created@.len() == 0
        },
    }
}

/// The gas of a transaction is all accounted for: what the record says was
/// used, what it says was given back, and what the call or creation had left
/// before refunds make up the gas offered.
pub proof fn lemma_gas_accounted(
    executed: Executed,
    gas: U256,
    block_gas_used: nat,
    result: crate::evm::Result,
    schedule: Schedule,
    substate: Substate,
    output: Vec<u8>,
    trace: Option<Trace>,
)
    requires
        records(executed, gas, block_gas_used, result, schedule, substate, output, trace),
        result matches Ok(gas_left) ==> gas_left@ <= gas@,
    ensures
        executed.gas_used@ + executed.refunded@ + gas_left_before_refund(result) == executed.gas@,
        executed.refunded@ <= (executed.gas@ - gas_left_before_refund(result)) / 2,
{
}

/// Where the call or creation of a transaction left no gas, or failed, the
/// gas used and the gas given back make up the gas offered.
pub proof fn lemma_gas_conserved(
    executed: Executed,
    gas: U256,
    block_gas_used: nat,
    result: crate::evm::Result,
    schedule: Schedule,
    substate: Substate,
    output: Vec<u8>,
    trace: Option<Trace>,
)
    requires
        records(executed, gas, block_gas_used, result, schedule, substate, output, trace),
        gas_left_before_refund(result) == 0,
    ensures
        executed.gas_used@ + executed.refunded@ == executed.gas@,
{
}

/// However much storage was cleared and however many accounts destroyed
/// themselves, the gas whose price goes back to the sender is no more than
/// what was left and half of what was used.
pub proof fn lemma_credit_capped(
    gas: nat,
    gas_price: nat,
    result: crate::evm::Result,
    schedule: Schedule,
    substate: Substate,
)
    requires
        gas_left_before_refund(result) <= gas,
    ensures
        ({
            let left = gas_left_before_refund(result);
            let refunded = refund_of(
                gas,
                left,
                refund_bound(schedule, substate.sstore_clears_count@, substate.suicides@.len()),
            );
            &&& refunded <= (gas - left) / 2
            &&& (left + refunded) * gas_price <= (left + (gas - left) / 2) * gas_price
        }),
{
    let left = gas_left_before_refund(result);
    let refunded = refund_of(
        gas,
        left,
        refund_bound(schedule, substate.sstore_clears_count@, substate.suicides@.len()),
    );
    let most = left + (gas - left) / 2;
    assert((left + refunded) * gas_price <= most * gas_price) by (nonlinear_arith)
        requires
            left + refunded <= most,
    ;
}

/// The accounts after a fresh contract account has been put at the address
/// of `params`: it holds what the address held before and the value, where
/// that moves.
pub open spec fn contract_placed(
    accounts: Map<Address, AccountView>,
    params: ActionParams,
) -> Map<Address, AccountView> {
    match params.value {
        ActionValue::Transfer(v) => {
            let debited = accounts.insert(
                params.sender,
                AccountView {
                    balance: (balance_in(accounts, params.sender) - v@) as nat,
                    ..account_in(accounts, params.sender)
                },
            );
            debited.insert(
                params.address,
                AccountView {
                    balance: v@ + balance_in(debited, params.address),
                    ..empty_account()
                },
            )
        },
        ActionValue::Apparent(_) => accounts.insert(
            params.address,
            AccountView {
                balance: balance_in(accounts, params.address),
                ..empty_account()
            },
        ),
    }
}

/// Whether `handed` is the view that the interpreter is given for the call or
/// creation that `params` asks for: the state holds `accounts` under one
/// checkpoint more than `checkpoints`, which keeps `kept`; nothing has been
/// gathered or recorded yet; and what describes the call is taken from
/// `params`.
pub open spec fn is_handed<T: Tracer, E: Engine, V>(
    handed: Externalities<'_, T, E, V>,
    accounts: Map<Address, AccountView>,
    kept: StateView,
    checkpoints: Seq<StateView>,
    info: EnvInfo,
    engine: E,
    interpreter: V,
    depth: usize,
    params: ActionParams,
    policy: OutputPolicy,
    buffer: BytesRef,
    recording: bool,
) -> bool {
    &&& handed.wf()
    &&& handed.state()@ == (StateView { accounts, supply: kept.supply })
    &&& handed.state().checkpoints() == checkpoints.push(kept)
    &&& handed.block() == info
    &&& handed.engine() == engine
    &&& handed.interpreter() == interpreter
    &&& handed.nesting() == depth
    &&& handed.origin() == origin_of(params)
    &&& handed.substate().is_empty()
    &&& handed.rules() == engine.schedule_of(&info)
    &&& handed.policy() == policy
    &&& handed.buffer() == buffer
    &&& handed.trace_buffer().is_some() == recording
    &&& handed.trace_buffer() matches Some(copy) ==> copy@.len() == 0
    &&& handed.observer().recording() == recording
    &&& handed.observer().recorded().len() == 0
}

/// The accounts after the sender's nonce has gone up by one and the sender
/// has paid `cost`.
pub open spec fn prepaid(
    accounts: Map<Address, AccountView>,
    sender: Address,
    cost: nat,
) -> Map<Address, AccountView> {
    let counted = accounts.insert(
        sender,
        AccountView { nonce: nonce_in(accounts, sender) + 1, ..account_in(accounts, sender) },
    );
    counted.insert(
        sender,
        AccountView {
            balance: (balance_in(counted, sender) - cost) as nat,
            ..account_in(counted, sender)
        },
    )
}

/// Whether `params` asks for what the transaction `t` of a sender with the
/// nonce given does, on the accounts given: a creation at the address that
/// sender and nonce give, with the transaction's data as code; or a call of
/// the address named, with the code that is there and the data as input.
/// The gas is what the bare inclusion has not taken.
pub open spec fn is_transaction_params(
    params: ActionParams,
    t: SignedTransaction,
    accounts: Map<Address, AccountView>,
    nonce: nat,
    schedule: Schedule,
) -> bool {
    let sender = t.sender.unwrap();
    &&& params.sender == sender
    &&& params.origin == sender
    &&& params.gas@ == t.gas@ - base_gas(t.action, t.data@, schedule)
    &&& params.gas_price == t.gas_price
    &&& params.value == ActionValue::Transfer(t.value)
    &&& params.code_address == params.address
    &&& match t.action {
        TransactionAction::Create => {
            &&& params.address.bytes() == contract_address_bytes(sender, nonce)
            &&& params.code matches Some(code) && code@ == t.data@
            &&& params.data.is_none()
        },
        TransactionAction::Call(address) => {
            &&& params.address == address
            &&& params.data matches Some(data) && data@ == t.data@
            &&& if accounts.dom().contains(address) {
                params.code matches Some(code) && code@ == accounts[address].code
            } else {
                params.code.is_none()
            }
        },
    }
}

/// Whether an interpreter's run came to `result`, and led from the substate
/// `before` to `after` and to the accounts `reached`: a result that reverts
/// leaves the accounts and the substate as they were; any other keeps the
/// accounts that the run left and takes over what it gathered.
pub open spec fn ran<T, E, V>(
    result: crate::evm::Result,
    before: Substate,
    after: Substate,
    reached: Map<Address, AccountView>,
    outcome: (crate::evm::Result, Externalities<'_, T, E, V>),
    accounts: Map<Address, AccountView>,
) -> bool {
    &&& result == outcome.0
    &&& if reverts(result) {
        reached == accounts && after == before
    } else {
        reached == outcome.1.state()@.accounts && accrued(before, outcome.1.substate(), after)
    }
}

/// Whether the last of `traces` holds what an interpreter's run left for it:
/// the traces of what was nested, and a copy of what was returned.
pub open spec fn trace_filled<T: Tracer, E, V>(
    traces: Seq<Trace>,
    left: Externalities<'_, T, E, V>,
) -> bool {
    &&& traces.len() > 0
    &&& traces.last().subs@ == left.observer().recorded()
    &&& traces.last().result matches Res::Call(r) ==> Some(r.output) == left.trace_buffer()
    &&& traces.last().result matches Res::Create(r) ==> Some(r.code) == left.trace_buffer()
}

/// Whether `traces` is `recorded` with the trace of a call without anything
/// nested in it, which returned `returned`.
pub open spec fn plain_call_traced(
    recorded: Seq<Trace>,
    traces: Seq<Trace>,
    params: ActionParams,
    depth: usize,
    result: crate::evm::Result,
    returned: Seq<u8>,
) -> bool {
    &&& one_more(recorded, traces)
    &&& is_call_trace(traces.last(), params, depth, result)
    &&& traces.last().subs@.len() == 0
    &&& traces.last().result matches Res::Call(r) ==> r.output@ == returned
}

/// What a call comes to. The call that `params` asks for, made at `depth` on
/// the accounts given, comes to `result`; it leads from the substate `before`
/// to `after`, to the accounts `reached`, from the caller's buffer `buffer`
/// to `output`, and from the traces `recorded` to `traces`.
///
/// The value moves first. A built-in contract runs where the gas pays for
/// it, and the call fails for want of gas where it does not. Without code the
/// call is done when the value has moved. Where code runs, the interpreter's
/// run on the view that it is handed tells the rest.
///
/// An observer that records gets one trace for the call. A call that keeps
/// its caller's context is left out, and so is the call of a built-in
/// contract anywhere but at the top, whether the gas paid for it or not.
pub open spec fn call_comes_to<T: Tracer, E: Engine, V: Evm>(
    result: crate::evm::Result,
    before: Substate,
    after: Substate,
    reached: Map<Address, AccountView>,
    output: BytesRef,
    recorded: Seq<Trace>,
    traces: Seq<Trace>,
    params: ActionParams,
    accounts: Map<Address, AccountView>,
    supply: nat,
    checkpoints: Seq<StateView>,
    info: EnvInfo,
    engine: E,
    interpreter: V,
    depth: usize,
    recording: bool,
    buffer: BytesRef,
) -> bool {
    let kept = StateView { accounts, supply };
    let observed = recording && params.code_address == params.address;
    if engine.builtin_at(params.code_address) {
        let cost = engine.builtin_cost(params.code_address, params.input());
        &&& after == before
        &&& if cost@ <= params.gas@ {
            &&& result matches Ok(gas_left) && gas_left@ == params.gas@ - cost@
            &&& reached == value_moved(accounts, params)
            &&& output.is_fixed() == buffer.is_fixed()
            &&& output.content() == buffer.after_write(
                engine.builtin_result(params.code_address, params.input()),
            )
            &&& if observed && depth == 0 {
                plain_call_traced(recorded, traces, params, depth, result, output.content())
            } else {
                traces == recorded
            }
        } else {
            &&& result == Err::<U256, Error>(Error::OutOfGas)
            &&& reached == accounts
            &&& output == buffer
            &&& if observed && depth == 0 {
                plain_call_traced(recorded, traces, params, depth, result, Seq::empty())
            } else {
                traces == recorded
            }
        }
    } else if params.code.is_none() {
        &&& after == before
        &&& result == Ok::<U256, Error>(params.gas)
        &&& reached == value_moved(accounts, params)
        &&& output == buffer
        &&& if observed {
            plain_call_traced(recorded, traces, params, depth, result, Seq::empty())
        } else {
            traces == recorded
        }
    } else {
        exists|handed: Externalities<'_, T, E, V>|
            {
                &&& #[trigger] is_handed(
                    handed,
                    value_moved(accounts, params),
                    kept,
                    checkpoints,
                    info,
                    engine,
                    interpreter,
                    depth,
                    params,
                    OutputPolicy::Return,
                    buffer,
                    recording,
                )
                &&& ran(result, before, after, reached, interpreter.run(params, handed), accounts)
                &&& output == interpreter.run(params, handed).1.buffer()
                &&& if observed {
                    &&& one_more(recorded, traces)
                    &&& is_call_trace(traces.last(), params, depth, result)
                    &&& trace_filled(traces, interpreter.run(params, handed).1)
                } else {
                    traces == recorded
                }
            }
    }
}

/// What a creation comes to. The creation that `params` asks for, made at
/// `depth` on the accounts given, comes to `result`; it leads from the
/// substate `before` to `after`, to the accounts `reached`, and from the
/// traces `recorded` to `traces`.
///
/// The address gets a fresh contract account that holds what the address
/// held before and the value; then the interpreter's run on the view that it
/// is handed tells the rest. An observer that records gets one trace for the
/// creation.
pub open spec fn creation_comes_to<T: Tracer, E: Engine, V: Evm>(
    result: crate::evm::Result,
    before: Substate,
    after: Substate,
    reached: Map<Address, AccountView>,
    recorded: Seq<Trace>,
    traces: Seq<Trace>,
    params: ActionParams,
    accounts: Map<Address, AccountView>,
    supply: nat,
    checkpoints: Seq<StateView>,
    info: EnvInfo,
    engine: E,
    interpreter: V,
    depth: usize,
    recording: bool,
) -> bool {
    exists|handed: Externalities<'_, T, E, V>|
        {
            &&& #[trigger] is_handed(
                handed,
                contract_placed(accounts, params),
                StateView { accounts, supply },
                checkpoints,
                info,
                engine,
                interpreter,
                depth,
                params,
                OutputPolicy::InitContract,
                handed.buffer(),
                recording,
            )
            &&& !handed.buffer().is_fixed()
            &&& handed.buffer().content().len() == 0
            &&& ran(result, before, after, reached, interpreter.run(params, handed), accounts)
            &&& if recording {
                &&& one_more(recorded, traces)
                &&& is_create_trace(traces.last(), params, depth, result)
                &&& trace_filled(traces, interpreter.run(params, handed).1)
            } else {
                traces == recorded
            }
        }
}

/// Whether `res` and `accounts` are what a transaction comes to whose call or
/// creation came to `result`, `gathered`, `reached` and `output`: the
/// accounts are settled from those reached; a fault of the interpreter's own
/// fails the transaction, and any other result is recorded.
pub open spec fn settles(
    res: ExecutionResult,
    accounts: Map<Address, AccountView>,
    t: SignedTransaction,
    info: EnvInfo,
    schedule: Schedule,
    result: crate::evm::Result,
    gathered: Substate,
    reached: Map<Address, AccountView>,
    output: Seq<u8>,
) -> bool {
    &&& accounts == settled_accounts(
        reached,
        t.sender.unwrap(),
        info.author,
        t.gas_price@,
        t.gas@,
        result,
        schedule,
        gathered,
    )
    &&& match res {
        Ok(executed) => {
            &&& !(result is Err && result->Err_0 is Internal)
            &&& executed.output@ == output
            &&& records(
                executed,
                t.gas,
                info.gas_used@,
                result,
                schedule,
                gathered,
                executed.output,
                executed.trace,
            )
        },
        Err(error) => error is Internal && result is Err && result->Err_0 is Internal,
    }
}

/// The accounts without those listed are the accounts without the set of
/// those listed: the order of the list does not show.
pub proof fn lemma_without_by_set(accounts: Map<Address, AccountView>, gone: Seq<Address>)
    ensures
        without(accounts, gone) == accounts.remove_keys(gone.to_set()),
    decreases gone.len(),
{
    if gone.len() == 0 {
        assert(accounts.remove_keys(gone.to_set()) =~= accounts);
    } else {
        let rest = gone.drop_last();
        lemma_without_by_set(accounts, rest);
        assert forall|a: Address| gone.to_set().contains(a) <==> (rest.to_set().contains(a) || a
            == gone.last()) by {
            if gone.contains(a) {
                let k = choose|k: int| 0 <= k < gone.len() && gone[k] == a;
                if k < gone.len() - 1 {
                    assert(rest[k] == a);
                }
            }
            if rest.contains(a) {
                let k = choose|k: int| 0 <= k < rest.len() && rest[k] == a;
                assert(gone[k] == a);
            }
            assert(gone[gone.len() - 1] == gone.last());
        }
        assert(accounts.remove_keys(rest.to_set()).remove(gone.last()) =~= accounts.remove_keys(
            gone.to_set(),
        ));
    }
}

/// Two descriptions that ask for the same tell the code the same of its
/// call.
pub proof fn lemma_alike_params(first: ActionParams, second: ActionParams)
    requires
        first.alike(second),
    ensures
        first.gas == second.gas,
        first.gas_price == second.gas_price,
        first.value == second.value,
        origin_of(first) == origin_of(second),
{
    first.gas.lemma_view_injective(second.gas);
    first.gas_price.lemma_view_injective(second.gas_price);
    first.value.amount().lemma_view_injective(second.value.amount());
}

/// What the call or the creation of a transaction comes to: a creation
/// leaves the buffer as it was.
pub open spec fn action_comes_to<T: Tracer, E: Engine, V: Evm>(
    creating: bool,
    result: crate::evm::Result,
    before: Substate,
    after: Substate,
    reached: Map<Address, AccountView>,
    output: BytesRef,
    recorded: Seq<Trace>,
    traces: Seq<Trace>,
    params: ActionParams,
    accounts: Map<Address, AccountView>,
    supply: nat,
    checkpoints: Seq<StateView>,
    info: EnvInfo,
    engine: E,
    interpreter: V,
    depth: usize,
    recording: bool,
    buffer: BytesRef,
) -> bool {
    if creating {
        &&& output == buffer
        &&& creation_comes_to::<T, E, V>(
            result,
            before,
            after,
            reached,
            recorded,
            traces,
            params,
            accounts,
            supply,
            checkpoints,
            info,
            engine,
            interpreter,
            depth,
            recording,
        )
    } else {
        call_comes_to::<T, E, V>(
            result,
            before,
            after,
            reached,
            output,
            recorded,
            traces,
            params,
            accounts,
            supply,
            checkpoints,
            info,
            engine,
            interpreter,
            depth,
            recording,
            buffer,
        )
    }
}

/// What an accepted transaction comes to. On the state given, `res` and
/// `accounts` are what the transaction `t` leaves: the sender's nonce goes up
/// and the gas is paid for; the creation or call is made with the gas that
/// the bare inclusion has not taken, with nothing gathered before and into
/// an empty buffer that takes any length; and the transaction is settled.
/// The record holds the last trace that the observer has then.
pub open spec fn transacted<T: Tracer, E: Engine, V: Evm>(
    res: ExecutionResult,
    accounts: Map<Address, AccountView>,
    t: SignedTransaction,
    before: StateView,
    checkpoints: Seq<StateView>,
    info: EnvInfo,
    engine: E,
    interpreter: V,
    depth: usize,
    recording: bool,
    recorded: Seq<Trace>,
) -> bool {
    let sender = t.sender.unwrap();
    let schedule = engine.schedule_of(&info);
    let cost = t.gas@ * t.gas_price@;
    let paid = prepaid(before.accounts, sender, cost);
    let supply = (before.supply - cost) as nat;
    exists|
        params: ActionParams,
        result: crate::evm::Result,
        fresh: Substate,
        gathered: Substate,
        reached: Map<Address, AccountView>,
        buffer: BytesRef,
        output: BytesRef,
        traces: Seq<Trace>,
    |
        {
            &&& fresh.wf()
            &&& fresh.is_empty()
            &&& !buffer.is_fixed()
            &&& buffer.content().len() == 0
            &&& is_transaction_params(
                params,
                t,
                paid,
                nonce_in(before.accounts, sender),
                schedule,
            )
            &&& #[trigger] action_comes_to::<T, E, V>(
                t.action is Create,
                result,
                fresh,
                gathered,
                reached,
                output,
                recorded,
                traces,
                params,
                paid,
                supply,
                checkpoints,
                info,
                engine,
                interpreter,
                depth,
                recording,
                buffer,
            )
            &&& settles(
                res,
                accounts,
                t,
                info,
                schedule,
                result,
                gathered,
                reached,
                output.content(),
            )
            &&& res matches Ok(executed) ==> executed.trace == if traces.len() > 0 {
                Some(traces.last())
            } else {
                None::<Trace>
            }
        }
}

/// Two substates that took over what two runs gathered are alike where they
/// were alike before and the runs gathered alike.
pub proof fn lemma_accrued_alike(
    before_a: Substate,
    gathered_a: Substate,
    after_a: Substate,
    before_b: Substate,
    gathered_b: Substate,
    after_b: Substate,
)
    requires
        accrued(before_a, gathered_a, after_a),
        accrued(before_b, gathered_b, after_b),
        before_a.alike(before_b),
        gathered_a.alike(gathered_b),
    ensures
        after_a.alike(after_b),
{
    after_a.lemma_suicides_counted();
    after_b.lemma_suicides_counted();
    lemma_logs_alike_joined(before_a.logs@, before_b.logs@, gathered_a.logs@, gathered_b.logs@);
}

/// Two views that are handed out for descriptions that ask for the same, on
/// the same accounts and into buffers that are alike, differ in nothing but
/// the observer.
pub proof fn lemma_handed_alike<T1: Tracer, T2: Tracer, E: Engine, V>(
    handed_a: Externalities<'_, T1, E, V>,
    handed_b: Externalities<'_, T2, E, V>,
    accounts: Map<Address, AccountView>,
    kept: StateView,
    checkpoints: Seq<StateView>,
    info: EnvInfo,
    engine: E,
    interpreter: V,
    depth: usize,
    params_a: ActionParams,
    params_b: ActionParams,
    policy: OutputPolicy,
    buffer_a: BytesRef,
    buffer_b: BytesRef,
    recording_a: bool,
    recording_b: bool,
)
    requires
        is_handed(
            handed_a,
            accounts,
            kept,
            checkpoints,
            info,
            engine,
            interpreter,
            depth,
            params_a,
            policy,
            buffer_a,
            recording_a,
        ),
        is_handed(
            handed_b,
            accounts,
            kept,
            checkpoints,
            info,
            engine,
            interpreter,
            depth,
            params_b,
            policy,
            buffer_b,
            recording_b,
        ),
        params_a.alike(params_b),
        buffer_a.alike(buffer_b),
    ensures
        handed_a.wf(),
        handed_b.wf(),
        handed_a.alike(handed_b),
{
    lemma_alike_params(params_a, params_b);
    let a = handed_a.substate();
    let b = handed_b.substate();
    assert(a.suicides@ =~= b.suicides@);
    assert(a.contracts_created@ =~= b.contracts_created@);
    assert(logs_alike(a.logs@, b.logs@));
}

/// Two runs of the interpreter on views that differ in nothing but the
/// observer come to the same result, the same accounts and substates that
/// are alike.
pub proof fn lemma_ran_alike<T1: Tracer, T2: Tracer, E: Engine, V: Evm>(
    interpreter: V,
    params_a: ActionParams,
    params_b: ActionParams,
    handed_a: Externalities<'_, T1, E, V>,
    handed_b: Externalities<'_, T2, E, V>,
    result_a: crate::evm::Result,
    result_b: crate::evm::Result,
    before_a: Substate,
    before_b: Substate,
    after_a: Substate,
    after_b: Substate,
    reached_a: Map<Address, AccountView>,
    reached_b: Map<Address, AccountView>,
    accounts: Map<Address, AccountView>,
)
    requires
        handed_a.wf(),
        handed_b.wf(),
        handed_a.alike(handed_b),
        params_a.alike(params_b),
        before_a.alike(before_b),
        ran(result_a, before_a, after_a, reached_a, interpreter.run(params_a, handed_a), accounts),
        ran(result_b, before_b, after_b, reached_b, interpreter.run(params_b, handed_b), accounts),
    ensures
        result_a == result_b,
        reached_a == reached_b,
        after_a.alike(after_b),
        interpreter.run(params_a, handed_a).1.buffer().alike(
            interpreter.run(params_b, handed_b).1.buffer(),
        ),
{
    interpreter.lemma_observer_unseen(params_a, params_b, handed_a, handed_b);
    if !reverts(result_a) {
        lemma_accrued_alike(
            before_a,
            interpreter.run(params_a, handed_a).1.substate(),
            after_a,
            before_b,
            interpreter.run(params_b, handed_b).1.substate(),
            after_b,
        );
    }
}

/// Who observes a call does not show in what it does. Two calls that ask for
/// the same, on the same accounts, from substates and into buffers that are
/// alike, come to the same result and the same accounts, and leave substates
/// and buffers that are alike, whatever the observers are and whether they
/// record.
pub proof fn lemma_call_unobserved<T1: Tracer, T2: Tracer, E: Engine, V: Evm>(
    result_a: crate::evm::Result,
    before_a: Substate,
    after_a: Substate,
    reached_a: Map<Address, AccountView>,
    output_a: BytesRef,
    recorded_a: Seq<Trace>,
    traces_a: Seq<Trace>,
    params_a: ActionParams,
    recording_a: bool,
    buffer_a: BytesRef,
    result_b: crate::evm::Result,
    before_b: Substate,
    after_b: Substate,
    reached_b: Map<Address, AccountView>,
    output_b: BytesRef,
    recorded_b: Seq<Trace>,
    traces_b: Seq<Trace>,
    params_b: ActionParams,
    recording_b: bool,
    buffer_b: BytesRef,
    accounts: Map<Address, AccountView>,
    supply: nat,
    checkpoints: Seq<StateView>,
    info: EnvInfo,
    engine: E,
    interpreter: V,
    depth: usize,
)
    requires
        params_a.alike(params_b),
        before_a.alike(before_b),
        buffer_a.alike(buffer_b),
        call_comes_to::<T1, E, V>(
            result_a,
            before_a,
            after_a,
            reached_a,
            output_a,
            recorded_a,
            traces_a,
            params_a,
            accounts,
            supply,
            checkpoints,
            info,
            engine,
            interpreter,
            depth,
            recording_a,
            buffer_a,
        ),
        call_comes_to::<T2, E, V>(
            result_b,
            before_b,
            after_b,
            reached_b,
            output_b,
            recorded_b,
            traces_b,
            params_b,
            accounts,
            supply,
            checkpoints,
            info,
            engine,
            interpreter,
            depth,
            recording_b,
            buffer_b,
        ),
    ensures
        result_a == result_b,
        reached_a == reached_b,
        after_a.alike(after_b),
        output_a.alike(output_b),
{
    lemma_alike_params(params_a, params_b);
    let kept = StateView { accounts, supply };
    if engine.builtin_at(params_a.code_address) {
        let cost = engine.builtin_cost(params_a.code_address, params_a.input());
        if cost@ <= params_a.gas@ {
            result_a->Ok_0.lemma_view_injective(result_b->Ok_0);
        }
    } else if params_a.code.is_none() {
    } else {
        let handed_a = choose|handed: Externalities<'_, T1, E, V>|
            {
                &&& #[trigger] is_handed(
                    handed,
                    value_moved(accounts, params_a),
                    kept,
                    checkpoints,
                    info,
                    engine,
                    interpreter,
                    depth,
                    params_a,
                    OutputPolicy::Return,
                    buffer_a,
                    recording_a,
                )
                &&& ran(
                    result_a,
                    before_a,
                    after_a,
                    reached_a,
                    interpreter.run(params_a, handed),
                    accounts,
                )
                &&& output_a == interpreter.run(params_a, handed).1.buffer()
            };
        let handed_b = choose|handed: Externalities<'_, T2, E, V>|
            {
                &&& #[trigger] is_handed(
                    handed,
                    value_moved(accounts, params_b),
                    kept,
                    checkpoints,
                    info,
                    engine,
                    interpreter,
                    depth,
                    params_b,
                    OutputPolicy::Return,
                    buffer_b,
                    recording_b,
                )
                &&& ran(
                    result_b,
                    before_b,
                    after_b,
                    reached_b,
                    interpreter.run(params_b, handed),
                    accounts,
                )
                &&& output_b == interpreter.run(params_b, handed).1.buffer()
            };
        assert(value_moved(accounts, params_a) == value_moved(accounts, params_b));
        lemma_handed_alike(
            handed_a,
            handed_b,
            value_moved(accounts, params_a),
            kept,
            checkpoints,
            info,
            engine,
            interpreter,
            depth,
            params_a,
            params_b,
            OutputPolicy::Return,
            buffer_a,
            buffer_b,
            recording_a,
            recording_b,
        );
        lemma_ran_alike(
            interpreter,
            params_a,
            params_b,
            handed_a,
            handed_b,
            result_a,
            result_b,
            before_a,
            before_b,
            after_a,
            after_b,
            reached_a,
            reached_b,
            accounts,
        );
    }
}

/// Who observes a creation does not show in what it does. Two creations that
/// ask for the same, on the same accounts and from substates that are alike,
/// come to the same result and the same accounts, and leave substates that
/// are alike, whatever the observers are and whether they record.
pub proof fn lemma_creation_unobserved<T1: Tracer, T2: Tracer, E: Engine, V: Evm>(
    result_a: crate::evm::Result,
    before_a: Substate,
    after_a: Substate,
    reached_a: Map<Address, AccountView>,
    recorded_a: Seq<Trace>,
    traces_a: Seq<Trace>,
    params_a: ActionParams,
    recording_a: bool,
    result_b: crate::evm::Result,
    before_b: Substate,
    after_b: Substate,
    reached_b: Map<Address, AccountView>,
    recorded_b: Seq<Trace>,
    traces_b: Seq<Trace>,
    params_b: ActionParams,
    recording_b: bool,
    accounts: Map<Address, AccountView>,
    supply: nat,
    checkpoints: Seq<StateView>,
    info: EnvInfo,
    engine: E,
    interpreter: V,
    depth: usize,
)
    requires
        params_a.alike(params_b),
        before_a.alike(before_b),
        creation_comes_to::<T1, E, V>(
            result_a,
            before_a,
            after_a,
            reached_a,
            recorded_a,
            traces_a,
            params_a,
            accounts,
            supply,
            checkpoints,
            info,
            engine,
            interpreter,
            depth,
            recording_a,
        ),
        creation_comes_to::<T2, E, V>(
            result_b,
            before_b,
            after_b,
            reached_b,
            recorded_b,
            traces_b,
            params_b,
            accounts,
            supply,
            checkpoints,
            info,
            engine,
            interpreter,
            depth,
            recording_b,
        ),
    ensures
        result_a == result_b,
        reached_a == reached_b,
        after_a.alike(after_b),
{
    lemma_alike_params(params_a, params_b);
    let kept = StateView { accounts, supply };
    let handed_a = choose|handed: Externalities<'_, T1, E, V>|
        {
            &&& #[trigger] is_handed(
                handed,
                contract_placed(accounts, params_a),
                kept,
                checkpoints,
                info,
                engine,
                interpreter,
                depth,
                params_a,
                OutputPolicy::InitContract,
                handed.buffer(),
                recording_a,
            )
            &&& !handed.buffer().is_fixed()
            &&& handed.buffer().content().len() == 0
            &&& ran(
                result_a,
                before_a,
                after_a,
                reached_a,
                interpreter.run(params_a, handed),
                accounts,
            )
        };
    let handed_b = choose|handed: Externalities<'_, T2, E, V>|
        {
            &&& #[trigger] is_handed(
                handed,
                contract_placed(accounts, params_b),
                kept,
                checkpoints,
                info,
                engine,
                interpreter,
                depth,
                params_b,
                OutputPolicy::InitContract,
                handed.buffer(),
                recording_b,
            )
            &&& !handed.buffer().is_fixed()
            &&& handed.buffer().content().len() == 0
            &&& ran(
                result_b,
                before_b,
                after_b,
                reached_b,
                interpreter.run(params_b, handed),
                accounts,
            )
        };
    assert(contract_placed(accounts, params_a) == contract_placed(accounts, params_b));
    assert(handed_a.buffer().content() =~= handed_b.buffer().content());
    lemma_handed_alike(
        handed_a,
        handed_b,
        contract_placed(accounts, params_a),
        kept,
        checkpoints,
        info,
        engine,
        interpreter,
        depth,
        params_a,
        params_b,
        OutputPolicy::InitContract,
        handed_a.buffer(),
        handed_b.buffer(),
        recording_a,
        recording_b,
    );
    lemma_ran_alike(
        interpreter,
        params_a,
        params_b,
        handed_a,
        handed_b,
        result_a,
        result_b,
        before_a,
        before_b,
        after_a,
        after_b,
        reached_a,
        reached_b,
        accounts,
    );
}

/// Substates that are alike settle a transaction alike: the order in which
/// the accounts that destroyed themselves are listed does not show.
pub proof fn lemma_settled_alike(
    accounts: Map<Address, AccountView>,
    sender: Address,
    author: Address,
    gas_price: nat,
    gas: nat,
    result: crate::evm::Result,
    schedule: Schedule,
    first: Substate,
    second: Substate,
)
    requires
        first.alike(second),
    ensures
        settled_accounts(accounts, sender, author, gas_price, gas, result, schedule, first)
            == settled_accounts(accounts, sender, author, gas_price, gas, result, schedule, second),
{
    let left = gas_left_before_refund(result);
    let refunded = refund_of(
        gas,
        left,
        refund_bound(schedule, first.sstore_clears_count@, first.suicides@.len()),
    );
    let gas_left = left + refunded;
    let gas_used = (gas - gas_left) as nat;
    let paid = credited(
        credited(accounts, sender, gas_left * gas_price),
        author,
        gas_used * gas_price,
    );
    lemma_without_by_set(paid, first.suicides@);
    lemma_without_by_set(paid, second.suicides@);
}

/// Whether two outcomes of a transaction agree in all but the trace: both
/// fail alike, or both records tell the same gas, events, contracts and
/// output.
pub open spec fn same_but_trace(first: ExecutionResult, second: ExecutionResult) -> bool {
    match (first, second) {
        (Ok(a), Ok(b)) => {
            &&& a.gas == b.gas
            &&& a.gas_used == b.gas_used
            &&& a.refunded == b.refunded
            &&& a.cumulative_gas_used == b.cumulative_gas_used
            &&& logs_alike(a.logs@, b.logs@)
            &&& a.contracts_created@ == b.contracts_created@
            &&& a.output@ == b.output@
        },
        (Err(a), Err(b)) => a == b,
        _ => false,
    }
}

/// Tracing does not show in what a transaction does. Where the same accepted
/// transaction is run twice on the same state, under observers of any kind,
/// one of which may record while the other does not, both runs leave the
/// same accounts, and their outcomes agree in all but the trace.
pub proof fn lemma_tracing_unobserved<T1: Tracer, T2: Tracer, E: Engine, V: Evm>(
    first: ExecutionResult,
    first_accounts: Map<Address, AccountView>,
    first_recording: bool,
    first_recorded: Seq<Trace>,
    second: ExecutionResult,
    second_accounts: Map<Address, AccountView>,
    second_recording: bool,
    second_recorded: Seq<Trace>,
    t: SignedTransaction,
    before: StateView,
    checkpoints: Seq<StateView>,
    info: EnvInfo,
    engine: E,
    interpreter: V,
    depth: usize,
)
    requires
        transacted::<T1, E, V>(
            first,
            first_accounts,
            t,
            before,
            checkpoints,
            info,
            engine,
            interpreter,
            depth,
            first_recording,
            first_recorded,
        ),
        transacted::<T2, E, V>(
            second,
            second_accounts,
            t,
            before,
            checkpoints,
            info,
            engine,
            interpreter,
            depth,
            second_recording,
            second_recorded,
        ),
    ensures
        first_accounts == second_accounts,
        same_but_trace(first, second),
{
    let sender = t.sender->Some_0;
    let schedule = engine.schedule_of(&info);
    let cost = t.gas@ * t.gas_price@;
    let paid = prepaid(before.accounts, sender, cost);
    let supply = (before.supply - cost) as nat;
    let (params_a, result_a, fresh_a, gathered_a, reached_a, buffer_a, output_a, traces_a) =
        choose|
        params: ActionParams,
        result: crate::evm::Result,
        fresh: Substate,
        gathered: Substate,
        reached: Map<Address, AccountView>,
        buffer: BytesRef,
        output: BytesRef,
        traces: Seq<Trace>,
    |
        {
            &&& fresh.is_empty()
            &&& !buffer.is_fixed()
            &&& buffer.content().len() == 0
            &&& is_transaction_params(
                params,
                t,
                paid,
                nonce_in(before.accounts, sender),
                schedule,
            )
            &&& #[trigger] action_comes_to::<T1, E, V>(
                t.action is Create,
                result,
                fresh,
                gathered,
                reached,
                output,
                first_recorded,
                traces,
                params,
                paid,
                supply,
                checkpoints,
                info,
                engine,
                interpreter,
                depth,
                first_recording,
                buffer,
            )
            &&& settles(
                first,
                first_accounts,
                t,
                info,
                schedule,
                result,
                gathered,
                reached,
                output.content(),
            )
        };
    let (params_b, result_b, fresh_b, gathered_b, reached_b, buffer_b, output_b, traces_b) =
        choose|
        params: ActionParams,
        result: crate::evm::Result,
        fresh: Substate,
        gathered: Substate,
        reached: Map<Address, AccountView>,
        buffer: BytesRef,
        output: BytesRef,
        traces: Seq<Trace>,
    |
        {
            &&& fresh.is_empty()
            &&& !buffer.is_fixed()
            &&& buffer.content().len() == 0
            &&& is_transaction_params(
                params,
                t,
                paid,
                nonce_in(before.accounts, sender),
                schedule,
            )
            &&& #[trigger] action_comes_to::<T2, E, V>(
                t.action is Create,
                result,
                fresh,
                gathered,
                reached,
                output,
                second_recorded,
                traces,
                params,
                paid,
                supply,
                checkpoints,
                info,
                engine,
                interpreter,
                depth,
                second_recording,
                buffer,
            )
            &&& settles(
                second,
                second_accounts,
                t,
                info,
                schedule,
                result,
                gathered,
                reached,
                output.content(),
            )
        };
    params_a.address.lemma_bytes_injective(params_b.address);
    params_a.gas.lemma_view_injective(params_b.gas);
    assert(params_a.alike(params_b));
    assert(fresh_a.suicides@ =~= fresh_b.suicides@);
    assert(fresh_a.contracts_created@ =~= fresh_b.contracts_created@);
    assert(fresh_a.alike(fresh_b));
    assert(buffer_a.content() =~= buffer_b.content());
    if t.action is Create {
        lemma_creation_unobserved::<T1, T2, E, V>(
            result_a,
            fresh_a,
            gathered_a,
            reached_a,
            first_recorded,
            traces_a,
            params_a,
            first_recording,
            result_b,
            fresh_b,
            gathered_b,
            reached_b,
            second_recorded,
            traces_b,
            params_b,
            second_recording,
            paid,
            supply,
            checkpoints,
            info,
            engine,
            interpreter,
            depth,
        );
    } else {
        lemma_call_unobserved::<T1, T2, E, V>(
            result_a,
            fresh_a,
            gathered_a,
            reached_a,
            output_a,
            first_recorded,
            traces_a,
            params_a,
            first_recording,
            buffer_a,
            result_b,
            fresh_b,
            gathered_b,
            reached_b,
            output_b,
            second_recorded,
            traces_b,
            params_b,
            second_recording,
            buffer_b,
            paid,
            supply,
            checkpoints,
            info,
            engine,
            interpreter,
            depth,
        );
    }
    lemma_settled_alike(
        reached_a,
        sender,
        info.author,
        t.gas_price@,
        t.gas@,
        result_a,
        schedule,
        gathered_a,
        gathered_b,
    );
    if first is Ok && second is Ok {
        let a = first->Ok_0;
        let b = second->Ok_0;
        a.gas_used.lemma_view_injective(b.gas_used);
        a.refunded.lemma_view_injective(b.refunded);
        a.cumulative_gas_used.lemma_view_injective(b.cumulative_gas_used);
        if result_a is Ok {
            assert(logs_alike(a.logs@, b.logs@));
        } else {
            assert(a.contracts_created@ =~= b.contracts_created@);
        }
    }
}

} // verus!
