//! Accounts: a balance and a nonce recorded under a 160-bit address.

use crate::uint::U256;
use vstd::prelude::*;

verus! {

/// A 160-bit account identifier, held as its upper 32 and lower 128 bits.
#[derive(Clone, Copy, Debug, PartialEq, Eq, Hash, Structural)]
pub struct Address {
    pub hi: u32,
    pub lo: u128,
}

impl View for Address {
    type V = nat;

    /// The identifier as a number below two to the power 160.
    open spec fn view(&self) -> nat {
        self.hi as nat * 0x1_0000_0000_0000_0000_0000_0000_0000_0000nat + self.lo as nat
    }
}

/// The record that the state keeps for one address.
#[derive(Clone, Copy, Debug, PartialEq, Eq, Structural)]
pub struct Account {
    pub address: Address,
    pub balance: U256,
    pub nonce: U256,
}

impl Account {
    /// An account with the given fields.
    pub fn new(address: Address, balance: U256, nonce: U256) -> (r: Account)
        ensures
            r == (Account { address, balance, nonce }),
    {
        Account { address, balance, nonce }
    }

    /// The account that every address has before anything was recorded for
    /// it: no balance, and nonce zero.
    pub open spec fn vacant(address: Address) -> Account {
        Account {
            address,
            balance: U256 { l0: 0, l1: 0, l2: 0, l3: 0 },
            nonce: U256 { l0: 0, l1: 0, l2: 0, l3: 0 },
        }
    }

    /// The vacant account of an address, as a value.
    pub fn empty(address: Address) -> (r: Account)
        ensures
            r == Account::vacant(address),
            r.balance@ == 0,
            r.nonce@ == 0,
    {
        Account { address, balance: U256::zero(), nonce: U256::zero() }
    }
}

} // verus!
