//! What a transaction may know of the block that holds it.

use vstd::prelude::*;
use crate::hash::{Address, H256};
use crate::uint::U256;

verus! {

/// The block's own values, fixed while its transactions run.
pub struct EnvInfo {
    /// The block number.
    pub number: u64,
    /// The address that the block's fees go to.
    pub author: Address,
    /// The block's time.
    pub timestamp: u64,
    /// The block's difficulty.
    pub difficulty: U256,
    /// The most gas that the block's transactions may use together.
    pub gas_limit: U256,
    /// The hashes of the blocks before this one, newest first.
    pub last_hashes: Vec<H256>,
    /// The gas that the block's earlier transactions used.
    pub gas_used: U256,
}

impl EnvInfo {
    /// The values of an empty block: everything zero, no earlier hashes.
    pub fn new() -> (r: EnvInfo)
        ensures
            r.number == 0,
            r.author == (Address { hi: 0, lo: 0 }),
            r.timestamp == 0,
            r.difficulty@ == 0,
            r.gas_limit@ == 0,
            r.last_hashes@ == Seq::<H256>::empty(),
            r.gas_used@ == 0,
    {
        EnvInfo {
            number: 0,
            author: Address::zero(),
            timestamp: 0,
            difficulty: U256::zero(),
            gas_limit: U256::zero(),
            last_hashes: Vec::new(),
            gas_used: U256::zero(),
        }
    }
}

impl Default for EnvInfo {
    /// The values of an empty block.
    fn default() -> (r: EnvInfo)
        ensures
            r.number == 0,
            r.author == (Address { hi: 0, lo: 0 }),
            r.timestamp == 0,
            r.difficulty@ == 0,
            r.gas_limit@ == 0,
            r.last_hashes@ == Seq::<H256>::empty(),
            r.gas_used@ == 0,
    {
        EnvInfo::new()
    }
}

} // verus!
