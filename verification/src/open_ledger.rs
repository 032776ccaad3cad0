//! A token ledger without issuer and without total supply: anybody may have
//! it mint, and it keeps the balances only.

use crate::address::Address;
use crate::address_map::AddressMap;
use crate::balances::{balance_in, none_negative, Balances};
use crate::error::Error;
use crate::goals_vault::TokenContract;
use vstd::prelude::*;

verus! {

/// Minting on a table of balances: the amount must be positive and the
/// receiver's balance must stay an amount. Then the amount is added to the
/// receiver's balance.
pub open spec fn open_mint(balances: Balances, to: Seq<char>, amount: int) -> Result<
    Balances,
    Error,
> {
    if amount <= 0 {
        Err(Error::InvalidAmount)
    } else if balance_in(balances, to) + amount > i128::MAX {
        Err(Error::Overflow)
    } else {
        Ok(balances.insert(to, balance_in(balances, to) + amount))
    }
}

/// A ledger of balances that anybody may have mint.
pub struct OpenLedger {
    balances: AddressMap<i128>,
}

impl View for OpenLedger {
    type V = Balances;

    closed spec fn view(&self) -> Balances {
        self.balances@.map_values(|amount: i128| amount as int)
    }
}

impl OpenLedger {
    /// A ledger without balances.
    pub fn new() -> (ledger: OpenLedger)
        ensures
            ledger.wf(),
            ledger@ == Map::<Seq<char>, int>::empty(),
    {
        let ledger = OpenLedger { balances: AddressMap::new() };
        assert(ledger@ =~= Map::<Seq<char>, int>::empty());
        ledger
    }

    /// The ledger is one that the operations here have built.
    pub closed spec fn built(&self) -> bool {
        self.balances.wf()
    }

    /// The balance of `user`: zero for an identity the ledger has not seen.
    pub fn balance(&self, user: &Address) -> (r: i128)
        requires
            self.wf(),
        ensures
            r == balance_in(self@, user@),
    {
        match self.balances.get(user) {
            Some(held) => *held,
            None => 0,
        }
    }
}

impl TokenContract for OpenLedger {
    open spec fn wf(&self) -> bool {
        self.built() && none_negative(self@)
    }

    open spec fn balance(ledger: Balances, who: Seq<char>) -> int {
        balance_in(ledger, who)
    }

    open spec fn mint_spec(ledger: Balances, to: Seq<char>, amount: int) -> Result<Balances, Error> {
        open_mint(ledger, to, amount)
    }

    proof fn mint_credits(ledger: Balances, to: Seq<char>, amount: int) {
    }

    /// Credits `amount` to `to`, whoever asks. Refused with `InvalidAmount`
    /// unless the amount is positive, then with `Overflow` where the balance
    /// would pass the largest amount; a refusal changes nothing.
    fn mint(&mut self, to: &Address, amount: i128) -> (r: Result<(), Error>) {
        if amount <= 0 {
            return Err(Error::InvalidAmount);
        }
        let current: i128 = match self.balances.get(to) {
            Some(held) => *held,
            None => 0,
        };
        assert(self@.contains_key(to@) ==> self@[to@] >= 0);
        if current > i128::MAX - amount {
            return Err(Error::Overflow);
        }
        let ghost before = self@;
        self.balances.insert(to.clone(), current + amount);
        assert(self@ =~= before.insert(to@, current + amount));
        Ok(())
    }

    fn checkpoint(&self) -> (saved: OpenLedger) {
        OpenLedger { balances: self.balances.duplicate() }
    }
}

} // verus!
