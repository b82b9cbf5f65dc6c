//! The description of one call or of one contract creation.

use vstd::prelude::*;
use crate::hash::Address;
use crate::uint::U256;

verus! {

/// The value that goes with a call.
#[derive(Clone, Copy, Debug, PartialEq, Eq, Structural)]
pub enum ActionValue {
    /// The amount moves from the sender to the receiver.
    Transfer(U256),
    /// The code sees the amount, and no balance moves.
    Apparent(U256),
}

impl ActionValue {
    /// The amount, moved or only seen.
    pub open spec fn amount(self) -> U256 {
        match self {
            ActionValue::Transfer(x) => x,
            ActionValue::Apparent(x) => x,
        }
    }

    /// The amount that leaves the sender: zero where it is only seen.
    pub open spec fn moved(self) -> nat {
        match self {
            ActionValue::Transfer(x) => x@,
            ActionValue::Apparent(_) => 0,
        }
    }

    /// The amount, moved or only seen.
    pub fn value(&self) -> (r: U256)
        ensures
            r == self.amount(),
    {
        match *self {
            ActionValue::Transfer(x) => x,
            ActionValue::Apparent(x) => x,
        }
    }
}

/// What one call or one creation is asked to do.
#[derive(Clone, Debug)]
pub struct ActionParams {
    /// The address whose code runs.
    pub code_address: Address,
    /// The address whose balance and storage the code works on.
    pub address: Address,
    /// The address that asks.
    pub sender: Address,
    /// The address that sent the transaction.
    pub origin: Address,
    /// The gas that the work may use.
    pub gas: U256,
    /// The price of one unit of gas.
    pub gas_price: U256,
    /// The value that goes with it.
    pub value: ActionValue,
    /// The code to run, if any.
    pub code: Option<Vec<u8>>,
    /// The input, if any.
    pub data: Option<Vec<u8>>,
}

impl ActionParams {
    /// Parameters with zero addresses, no gas, no value, no code and no input.
    pub fn new() -> (r: ActionParams)
        ensures
            r.code_address == (Address { hi: 0, lo: 0 }),
            r.address == (Address { hi: 0, lo: 0 }),
            r.sender == (Address { hi: 0, lo: 0 }),
            r.origin == (Address { hi: 0, lo: 0 }),
            r.gas@ == 0,
            r.gas_price@ == 0,
            r.value == ActionValue::Transfer(U256 { hi: 0, lo: 0 }),
            r.code.is_none(),
            r.data.is_none(),
    {
        ActionParams {
            code_address: Address::zero(),
            address: Address::zero(),
            sender: Address::zero(),
            origin: Address::zero(),
            gas: U256::zero(),
            gas_price: U256::zero(),
            value: ActionValue::Transfer(U256::zero()),
            code: None,
            data: None,
        }
    }

    /// Whether two descriptions ask for the same: the same addresses, gas,
    /// price and value, and the same bytes as code and as input, where there
    /// are any.
    pub open spec fn alike(self, other: ActionParams) -> bool {
        &&& self.code_address == other.code_address
        &&& self.address == other.address
        &&& self.sender == other.sender
        &&& self.origin == other.origin
        &&& self.gas@ == other.gas@
        &&& self.gas_price@ == other.gas_price@
        &&& (self.value is Transfer) == (other.value is Transfer)
        &&& self.value.amount()@ == other.value.amount()@
        &&& self.code.is_some() == other.code.is_some()
        &&& self.program() == other.program()
        &&& self.data.is_some() == other.data.is_some()
        &&& self.input() == other.input()
    }

    /// The input bytes: none where there is no input.
    pub open spec fn input(&self) -> Seq<u8> {
        match self.data {
            Some(d) => d@,
            None => Seq::empty(),
        }
    }

    /// The code bytes: none where there is no code.
    pub open spec fn program(&self) -> Seq<u8> {
        match self.code {
            Some(c) => c@,
            None => Seq::empty(),
        }
    }
}

impl Default for ActionParams {
    /// Parameters with zero addresses, no gas, no value, no code and no input.
    fn default() -> (r: ActionParams)
        ensures
            r.code_address == (Address { hi: 0, lo: 0 }),
            r.address == (Address { hi: 0, lo: 0 }),
            r.sender == (Address { hi: 0, lo: 0 }),
            r.origin == (Address { hi: 0, lo: 0 }),
            r.gas@ == 0,
            r.gas_price@ == 0,
            r.value == ActionValue::Transfer(U256 { hi: 0, lo: 0 }),
            r.code.is_none(),
            r.data.is_none(),
    {
        ActionParams::new()
    }
}

} // verus!
