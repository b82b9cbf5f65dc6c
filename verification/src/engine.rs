//! The consensus engine: it supplies the rule table of a block and the
//! contracts that are built in at fixed addresses.

use vstd::prelude::*;
use crate::env_info::EnvInfo;
use crate::hash::Address;
use crate::schedule::Schedule;
use crate::uint::U256;

verus! {

/// What execution asks of the consensus engine. Each answer depends on the
/// question alone: asked twice, the engine answers the same.
pub trait Engine: Sync + Sized {
    /// The rule table for a block.
    spec fn schedule_of(&self, info: &EnvInfo) -> Schedule;

    /// Whether a contract is built in at the address.
    spec fn builtin_at(&self, address: Address) -> bool;

    /// The gas that the built-in contract at the address asks for an input.
    /// Execution asks only where a contract is built in.
    spec fn builtin_cost(&self, address: Address, input: Seq<u8>) -> U256;

    /// What the built-in contract at the address returns for an input.
    /// Execution asks only where a contract is built in.
    spec fn builtin_result(&self, address: Address, input: Seq<u8>) -> Seq<u8>;

    /// The rule table for a block.
    fn schedule(&self, info: &EnvInfo) -> (r: Schedule)
        ensures
            r == self.schedule_of(info),
    ;

    /// Whether a contract is built in at the address.
    fn is_builtin(&self, address: &Address) -> (r: bool)
        ensures
            r == self.builtin_at(*address),
    ;

    /// The gas that the built-in contract at the address asks for an input.
    fn cost_of_builtin(&self, address: &Address, input: &[u8]) -> (r: U256)
        ensures
            r == self.builtin_cost(*address, input@),
    ;

    /// Runs the built-in contract at the address on an input.
    fn execute_builtin(&self, address: &Address, input: &[u8]) -> (r: Vec<u8>)
        ensures
            r@ == self.builtin_result(*address, input@),
    ;
}

/// An engine with one rule table for every block and no built-in contract.
pub struct NullEngine {
    /// The rule table.
    pub schedule: Schedule,
}

impl NullEngine {
    /// An engine with the rule table given.
    pub fn new(schedule: Schedule) -> (r: NullEngine)
        ensures
            r.schedule == schedule,
    {
        NullEngine { schedule }
    }
}

impl Engine for NullEngine {
    open spec fn schedule_of(&self, info: &EnvInfo) -> Schedule {
        self.schedule
    }

    open spec fn builtin_at(&self, address: Address) -> bool {
        false
    }

    open spec fn builtin_cost(&self, address: Address, input: Seq<u8>) -> U256 {
        U256 { hi: 0, lo: 0 }
    }

    open spec fn builtin_result(&self, address: Address, input: Seq<u8>) -> Seq<u8> {
        Seq::empty()
    }

    fn schedule(&self, info: &EnvInfo) -> (r: Schedule) {
        self.schedule
    }

    fn is_builtin(&self, address: &Address) -> (r: bool) {
        false
    }

    fn cost_of_builtin(&self, address: &Address, input: &[u8]) -> (r: U256) {
        U256::zero()
    }

    fn execute_builtin(&self, address: &Address, input: &[u8]) -> (r: Vec<u8>) {
        Vec::new()
    }
}

} // verus!
