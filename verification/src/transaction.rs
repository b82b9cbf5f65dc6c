//! Transactions as execution reads them.

use vstd::prelude::*;
use crate::hash::Address;
use crate::schedule::Schedule;
use crate::uint::{lemma_product_bound, pow2_64, U256};

verus! {

/// What a transaction does.
#[derive(Clone, Copy, Debug, PartialEq, Eq, Structural)]
pub enum Action {
    /// It creates a contract.
    Create,
    /// It calls the address.
    Call(Address),
}

/// A transaction whose signature has been looked at.
pub struct SignedTransaction {
    /// The sender's nonce that the transaction was made for.
    pub nonce: U256,
    /// The price offered for one unit of gas.
    pub gas_price: U256,
    /// The gas offered.
    pub gas: U256,
    /// What the transaction does.
    pub action: Action,
    /// The value sent along.
    pub value: U256,
    /// The input of a call, or the code that makes a contract.
    pub data: Vec<u8>,
    /// The sender that the signature gives; `None` where it gives none.
    pub sender: Option<Address>,
}

/// The number of zero bytes in a byte string.
pub open spec fn zero_bytes(data: Seq<u8>) -> nat
    decreases data.len(),
{
    if data.len() == 0 {
        0
    } else {
        zero_bytes(data.drop_last()) + if data.last() == 0 {
            1nat
        } else {
            0nat
        }
    }
}

/// The gas that the bare inclusion of a transaction costs: a sum for the kind
/// of transaction, and a sum for each byte of its data, less for a zero byte.
pub open spec fn base_gas(action: Action, data: Seq<u8>, schedule: Schedule) -> nat {
    let start = match action {
        Action::Create => schedule.tx_create_gas as nat,
        Action::Call(_) => schedule.tx_gas as nat,
    };
    let zeros = zero_bytes(data);
    (start + zeros * schedule.tx_data_zero_gas + (data.len() - zeros)
        * schedule.tx_data_non_zero_gas) as nat
}

impl SignedTransaction {
    /// The sender, where the signature gives one.
    pub fn sender(&self) -> (r: Option<Address>)
        ensures
            r == self.sender,
    {
        self.sender
    }

    /// The gas that the bare inclusion of the transaction costs.
    pub fn gas_required(&self, schedule: &Schedule) -> (r: U256)
        ensures
            r@ == base_gas(self.action, self.data@, *schedule),
    {
        let mut zeros: usize = 0;
        let mut i: usize = 0;
        while i < self.data.len()
            invariant
                i <= self.data@.len(),
                zeros as nat == zero_bytes(self.data@.subrange(0, i as int)),
                zeros <= i,
            decreases self.data@.len() - i,
        {
            proof {
                assert(self.data@.subrange(0, i + 1).drop_last() =~= self.data@.subrange(
                    0,
                    i as int,
                ));
            }
            if self.data[i] == 0 {
                zeros = zeros + 1;
            }
            i = i + 1;
        }
        proof {
            assert(self.data@.subrange(0, i as int) =~= self.data@);
        }
        let others: usize = self.data.len() - zeros;
        let start: u64 = match self.action {
            Action::Create => schedule.tx_create_gas,
            Action::Call(_) => schedule.tx_gas,
        };
        proof {
            lemma_product_bound(zeros as int, schedule.tx_data_zero_gas as int, pow2_64());
            lemma_product_bound(others as int, schedule.tx_data_non_zero_gas as int, pow2_64());
        }
        let for_zeros: u128 = (zeros as u128) * (schedule.tx_data_zero_gas as u128);
        let for_others: u128 = (others as u128) * (schedule.tx_data_non_zero_gas as u128);
        U256::from_u64(start).add(U256::from_u128(for_zeros)).add(U256::from_u128(for_others))
    }
}

} // verus!
