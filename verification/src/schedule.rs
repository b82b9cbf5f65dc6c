//! The consensus rule table: what each kind of work costs in gas, and the
//! limits that execution keeps.

use vstd::prelude::*;

verus! {

/// The rule table of one block.
#[derive(Clone, Copy, Debug, PartialEq, Eq, Structural)]
pub struct Schedule {
    /// Whether a contract creation that cannot pay for its code fails.
    pub exceptional_failed_code_deposit: bool,
    /// Whether calls that keep the caller's context are known.
    pub have_delegate_call: bool,
    /// The depth of the operand stack.
    pub stack_limit: usize,
    /// The greatest depth of nested calls and creations.
    pub max_depth: usize,
    /// Gas for reading a storage slot.
    pub sload_gas: u64,
    /// Gas for writing a storage slot that held zero.
    pub sstore_set_gas: u64,
    /// Gas for writing a storage slot that held a value.
    pub sstore_reset_gas: u64,
    /// Gas given back when a storage slot is set to zero.
    pub sstore_refund_gas: u64,
    /// Gas for a contract creation from code.
    pub create_gas: u64,
    /// Gas for a message call.
    pub call_gas: u64,
    /// Gas for each byte of code that a creation deposits.
    pub create_data_gas: u64,
    /// Gas for a transaction that calls.
    pub tx_gas: u64,
    /// Gas for a transaction that creates a contract.
    pub tx_create_gas: u64,
    /// Gas for each zero byte of a transaction's data.
    pub tx_data_zero_gas: u64,
    /// Gas for each other byte of a transaction's data.
    pub tx_data_non_zero_gas: u64,
    /// Gas given back when a contract destroys itself.
    pub suicide_refund_gas: u64,
}

impl Schedule {
    /// The table of the first release of the chain rules.
    pub fn new_frontier() -> (r: Schedule)
        ensures
            r == Schedule::common(false, 21000),
    {
        Schedule::with_rules(false, 21000)
    }

    /// The table of the second release: delegate calls are known, a creation
    /// that cannot pay for its code fails, and a creating transaction costs more.
    pub fn new_homestead() -> (r: Schedule)
        ensures
            r == Schedule::common(true, 53000),
    {
        Schedule::with_rules(true, 53000)
    }

    /// The table that both releases share, but for the two values given.
    pub open spec fn common(homestead: bool, tx_create_gas: u64) -> Schedule {
        Schedule {
            exceptional_failed_code_deposit: homestead,
            have_delegate_call: homestead,
            stack_limit: 1024,
            max_depth: 1024,
            sload_gas: 50,
            sstore_set_gas: 20000,
            sstore_reset_gas: 5000,
            sstore_refund_gas: 15000,
            create_gas: 32000,
            call_gas: 40,
            create_data_gas: 200,
            tx_gas: 21000,
            tx_create_gas: tx_create_gas,
            tx_data_zero_gas: 4,
            tx_data_non_zero_gas: 68,
            suicide_refund_gas: 24000,
        }
    }

    /// The table that both releases share, but for the two values given.
    fn with_rules(homestead: bool, tx_create_gas: u64) -> (r: Schedule)
        ensures
            r == Schedule::common(homestead, tx_create_gas),
    {
        Schedule {
            exceptional_failed_code_deposit: homestead,
            have_delegate_call: homestead,
            stack_limit: 1024,
            max_depth: 1024,
            sload_gas: 50,
            sstore_set_gas: 20000,
            sstore_reset_gas: 5000,
            sstore_refund_gas: 15000,
            create_gas: 32000,
            call_gas: 40,
            create_data_gas: 200,
            tx_gas: 21000,
            tx_create_gas,
            tx_data_zero_gas: 4,
            tx_data_non_zero_gas: 68,
            suicide_refund_gas: 24000,
        }
    }
}

} // verus!
