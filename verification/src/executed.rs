//! What the execution of one transaction yields.

use vstd::prelude::*;
use crate::error::ExecutionError;
use crate::hash::Address;
use crate::substate::LogEntry;
use crate::trace::Trace;
use crate::uint::U256;

verus! {

/// The record of one executed transaction.
pub struct Executed {
    /// The gas that the transaction offered.
    pub gas: U256,
    /// The gas that it used, refunds taken off.
    pub gas_used: U256,
    /// The gas given back for storage cleared and accounts destroyed.
    pub refunded: U256,
    /// The gas that the block has used with this transaction.
    pub cumulative_gas_used: U256,
    /// The events emitted.
    pub logs: Vec<LogEntry>,
    /// The contracts created.
    pub contracts_created: Vec<Address>,
    /// What the call returned.
    pub output: Vec<u8>,
    /// The trace of the top-level call, where one was asked for.
    pub trace: Option<Trace>,
}

/// The record, or the reason why there is none.
pub type ExecutionResult = Result<Executed, ExecutionError>;

} // verus!
