//! The token ledger as the minting port of the goal escrow.

use crate::address::Address;
use crate::error::Error;
use crate::goals_vault::TokenContract;
use crate::sync_token::{LedgerState, SyncToken};
use vstd::prelude::*;

verus! {

/// What a port to the token ledger stands for: the ledger, and the invoker
/// in whose name it is asked to mint.
pub struct PortState {
    pub ledger: LedgerState,
    pub invoker: Seq<char>,
}

/// A token ledger driven on behalf of one invoker: what the escrow mints
/// through it, the ledger is asked to mint in that invoker's name, and
/// refuses unless the invoker is its issuer.
pub struct LedgerPort {
    ledger: SyncToken,
    invoker: Address,
}

impl View for LedgerPort {
    type V = PortState;

    closed spec fn view(&self) -> PortState {
        PortState { ledger: self.ledger@, invoker: self.invoker@ }
    }
}

impl LedgerPort {
    /// The ledger behind the port is well-formed.
    pub closed spec fn ledger_wf(&self) -> bool {
        self.ledger.wf()
    }

    /// A port to `ledger` for `invoker`.
    pub fn new(ledger: SyncToken, invoker: Address) -> (port: LedgerPort)
        requires
            ledger.wf(),
        ensures
            port.wf(),
            port@ == (PortState { ledger: ledger@, invoker: invoker@ }),
    {
        LedgerPort { ledger, invoker }
    }

    /// The ledger behind the port.
    pub fn ledger(&self) -> (ledger: &SyncToken)
        ensures
            ledger@ == self@.ledger,
            self.wf() ==> ledger.wf(),
    {
        &self.ledger
    }

    /// Gives the ledger back.
    pub fn into_ledger(self) -> (ledger: SyncToken)
        ensures
            ledger@ == self@.ledger,
            self.wf() ==> ledger.wf(),
    {
        self.ledger
    }
}

impl TokenContract for LedgerPort {
    open spec fn wf(&self) -> bool {
        self.ledger_wf()
    }

    open spec fn balance(ledger: PortState, who: Seq<char>) -> int {
        ledger.ledger.balance(who)
    }

    open spec fn mint_spec(ledger: PortState, to: Seq<char>, amount: int) -> Result<
        PortState,
        Error,
    > {
        match ledger.ledger.mint(ledger.invoker, to, amount) {
            Ok(next) => Ok(PortState { ledger: next, ..ledger }),
            Err(e) => Err(e),
        }
    }

    proof fn mint_credits(ledger: PortState, to: Seq<char>, amount: int) {
    }

    /// Has the ledger mint in the invoker's name.
    fn mint(&mut self, to: &Address, amount: i128) -> (r: Result<(), Error>) {
        self.ledger.mint(&self.invoker, to, amount)
    }

    fn checkpoint(&self) -> (saved: LedgerPort) {
        LedgerPort { ledger: self.ledger.duplicate(), invoker: self.invoker.clone() }
    }
}

} // verus!
