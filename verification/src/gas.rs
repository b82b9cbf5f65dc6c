//! The gas account of a transaction at its end: what is given back for
//! storage cleared and accounts destroyed, and what is left to pay.

use vstd::prelude::*;
use crate::schedule::Schedule;
use crate::uint::{U256, U512};

verus! {

/// The most gas that is given back for `clears` storage slots cleared and
/// `suicides` accounts destroyed.
pub open spec fn refund_bound(schedule: Schedule, clears: nat, suicides: nat) -> nat {
    schedule.sstore_refund_gas as nat * clears + schedule.suicide_refund_gas as nat * suicides
}

/// The gas that is given back: the bound, but no more than half of the gas
/// that was used.
pub open spec fn refund_of(gas: nat, gas_left: nat, bound: nat) -> nat {
    let cap = ((gas - gas_left) / 2) as nat;
    if bound < cap {
        bound
    } else {
        cap
    }
}

/// The gas account of a transaction at its end.
#[derive(Clone, Copy, Debug, PartialEq, Eq, Structural)]
pub struct Settlement {
    /// The gas given back for storage cleared and accounts destroyed.
    pub refunded: U256,
    /// The gas that goes back to the sender: what was left, and what is given back.
    pub gas_left: U256,
    /// The gas that the sender pays for.
    pub gas_used: U256,
}

/// Settles the gas of a transaction that offered `gas` and has
/// `gas_left_prerefund` of it left.
pub fn settle_gas(
    gas: U256,
    gas_left_prerefund: U256,
    schedule: &Schedule,
    clears: U256,
    suicides: usize,
) -> (r: Settlement)
    requires
        gas_left_prerefund@ <= gas@,
    ensures
        r.refunded@ == refund_of(
            gas@,
            gas_left_prerefund@,
            refund_bound(*schedule, clears@, suicides as nat),
        ),
        r.gas_left@ == gas_left_prerefund@ + r.refunded@,
        r.gas_used@ == gas@ - r.gas_left@,
        r.refunded@ <= (gas@ - gas_left_prerefund@) / 2,
        r.gas_used@ + r.refunded@ + gas_left_prerefund@ == gas@,
{
    let for_clears: U512 = U256::from_u64(schedule.sstore_refund_gas).full_mul(clears);
    let for_suicides: U512 = U256::from_u64(schedule.suicide_refund_gas).full_mul(
        U256::from_usize(suicides),
    );
    let cap: U256 = gas.sub(gas_left_prerefund).half();
    let refunded: U256 = match for_clears.checked_add(for_suicides) {
        Some(bound) => {
            if bound.lt(&U512::from_u256(cap)) {
                bound.low_u256()
            } else {
                cap
            }
        },
        None => cap,
    };
    let gas_left = gas_left_prerefund.add(refunded);
    let gas_used = gas.sub(gas_left);
    Settlement { refunded, gas_left, gas_used }
}

/// The gas given back never exceeds half of the gas that was used, whatever
/// the bound that cleared storage and destroyed accounts give.
pub proof fn lemma_refund_capped(gas: nat, gas_left: nat, bound: nat)
    requires
        gas_left <= gas,
    ensures
        refund_of(gas, gas_left, bound) <= (gas - gas_left) / 2,
        refund_of(gas, gas_left, bound) <= bound,
{
}

} // verus!
