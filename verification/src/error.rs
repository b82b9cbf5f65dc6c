//! Why a transaction is turned away before it changes anything.

use vstd::prelude::*;
use crate::uint::{U256, U512};

verus! {

/// The reasons for which a transaction is not executed.
#[derive(Clone, Debug, PartialEq, Eq)]
#[allow(inconsistent_fields)]
pub enum ExecutionError {
    /// The transaction offers less gas than its bare inclusion costs.
    NotEnoughBaseGas {
        /// The gas that inclusion costs.
        required: U256,
        /// The gas that the transaction offers.
        got: U256,
    },
    /// The block has not enough gas left for the transaction.
    BlockGasLimitReached {
        /// The most gas that the block may use.
        gas_limit: U256,
        /// The gas that the block has used so far.
        gas_used: U256,
        /// The gas that the transaction offers.
        gas: U256,
    },
    /// The transaction's nonce is not the sender's.
    InvalidNonce {
        /// The sender's nonce.
        expected: U256,
        /// The transaction's nonce.
        got: U256,
    },
    /// The sender cannot pay for the value and the gas.
    NotEnoughCash {
        /// The value and the price of all the gas.
        required: U512,
        /// The sender's balance.
        got: U512,
    },
    /// The execution met a fault of its own.
    Internal,
    /// The sender cannot be told from the transaction.
    TransactionMalformed(String),
}

} // verus!
