//! What a miner tells of itself and takes as settings.

use vstd::prelude::*;
use crate::hash::{Address, H256};
use crate::transaction::SignedTransaction;
use crate::uint::U256;

verus! {

/// How full the miner's queues are.
#[derive(Debug)]
pub struct MinerStatus {
    /// The transactions that are ready for a block.
    pub transactions_in_pending_queue: usize,
    /// The transactions that wait for earlier ones.
    pub transactions_in_future_queue: usize,
    /// The transactions in the block that is being mined.
    pub transactions_in_pending_block: usize,
}

/// The gas price that is suggested where nothing else is known.
pub open spec fn default_gas_price() -> nat {
    20000000000
}

/// The gas limit that is suggested for a plain transfer.
pub open spec fn default_gas_limit() -> nat {
    21000
}

/// The gas price that a miner suggests unless it says otherwise.
pub fn gas_price_by_default() -> (r: U256)
    ensures
        r@ == default_gas_price(),
{
    U256::from_u64(20000000000u64)
}

/// The gas limit that a miner suggests unless it says otherwise.
pub fn gas_limit_by_default() -> (r: U256)
    ensures
        r@ == default_gas_limit(),
{
    U256::from_u64(21000u64)
}

/// What a miner offers to those that steer it. Execution asks nothing of a
/// miner, so none of its answers is bound here: each is the miner's own.
pub trait MinerService: Send + Sync {
    /// How full the queues are.
    fn status(&self) -> MinerStatus;

    /// The author that blocks are sealed as.
    fn author(&self) -> Address;

    /// Sets the author that blocks are sealed as.
    fn set_author(&self, author: Address);

    /// The extra data that blocks are sealed with.
    fn extra_data(&self) -> Vec<u8>;

    /// Sets the extra data that blocks are sealed with.
    fn set_extra_data(&self, extra_data: Vec<u8>);

    /// The least gas price at which a transaction is taken into the queue.
    fn minimal_gas_price(&self) -> U256;

    /// Sets the least gas price at which a transaction is taken into the queue.
    fn set_minimal_gas_price(&self, min_gas_price: U256);

    /// The gas limit that new blocks aim at.
    fn gas_floor_target(&self) -> U256;

    /// Sets the gas limit that new blocks aim at.
    fn set_gas_floor_target(&self, target: U256);

    /// The most transactions that the queue keeps.
    fn transactions_limit(&self) -> usize;

    /// Sets the most transactions that the queue keeps.
    fn set_transactions_limit(&self, limit: usize);

    /// The highest nonce among the transactions of an address in the queue.
    fn last_nonce(&self, address: &Address) -> Option<U256>;

    /// The hashes of the transactions that are ready for a block.
    fn pending_transactions_hashes(&self) -> Vec<H256>;

    /// The transaction in the queue with the hash given, if it is there.
    fn transaction(&self, hash: &H256) -> Option<SignedTransaction>;

    /// All the transactions in the queue.
    fn all_transactions(&self) -> Vec<SignedTransaction>;

    /// The transactions that are ready for a block.
    fn pending_transactions(&self) -> Vec<SignedTransaction>;

    /// The gas price that is suggested: `default_gas_price`, unless the
    /// miner says otherwise.
    fn sensible_gas_price(&self) -> U256 {
        gas_price_by_default()
    }

    /// The gas limit that is suggested: `default_gas_limit`, unless the
    /// miner says otherwise.
    fn sensible_gas_limit(&self) -> U256 {
        gas_limit_by_default()
    }
}

} // verus!
