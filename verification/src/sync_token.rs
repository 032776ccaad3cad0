//! The token ledger: balances by identity, a total supply, and an issuer who
//! alone may mint.

use crate::address::{opt_view, Address};
use crate::address_map::{rows_distinct, AddressMap};
use crate::balances::{
    balance_in, lemma_balance_within_total, lemma_rows_balances, lemma_rows_total_grows,
    lemma_total_empty, lemma_total_insert, lemma_two_balances_within_total, none_negative,
    rows_balances, rows_not_negative, rows_total, total, Balances,
};
use crate::error::Error;
use vstd::prelude::*;

verus! {

/// What the ledger holds: the issuer, once set, the balances and the total
/// supply.
pub struct LedgerState {
    pub minter: Option<Seq<char>>,
    pub balances: Balances,
    pub total_supply: int,
}

impl LedgerState {
    /// The ledger before anything has happened.
    pub open spec fn empty() -> LedgerState {
        LedgerState { minter: None, balances: Map::empty(), total_supply: 0 }
    }

    /// No balance is negative, and the balances add up to the total supply.
    pub open spec fn valid(self) -> bool {
        &&& self.balances.dom().finite()
        &&& none_negative(self.balances)
        &&& total(self.balances) == self.total_supply
    }

    /// The balance of `who`: zero for an identity the ledger has not seen.
    pub open spec fn balance(self, who: Seq<char>) -> int {
        balance_in(self.balances, who)
    }

    /// The ledger with `amount` added to the balance of `who`.
    pub open spec fn credit(self, who: Seq<char>, amount: int) -> LedgerState {
        LedgerState { balances: self.balances.insert(who, self.balance(who) + amount), ..self }
    }

    /// Setting the issuer: refused once an issuer is set.
    pub open spec fn initialize(self, minter: Seq<char>) -> Result<LedgerState, Error> {
        if self.minter is Some {
            Err(Error::AlreadyInitialized)
        } else {
            Ok(LedgerState { minter: Some(minter), ..self })
        }
    }

    /// Minting: only the issuer may, the amount must be positive and the
    /// total supply must stay an amount. Then the amount is added to the
    /// receiver's balance and to the total supply.
    pub open spec fn mint(self, invoker: Seq<char>, to: Seq<char>, amount: int) -> Result<
        LedgerState,
        Error,
    > {
        if self.minter != Some(invoker) {
            Err(Error::Unauthorized)
        } else if amount <= 0 {
            Err(Error::InvalidAmount)
        } else if self.total_supply + amount > i128::MAX {
            Err(Error::Overflow)
        } else {
            Ok(
                LedgerState {
                    total_supply: self.total_supply + amount,
                    ..self.credit(to, amount)
                },
            )
        }
    }

    /// Transferring: only the holder may, the amount must be positive and
    /// covered by the holder's balance. Then the holder is debited and the
    /// receiver credited; the total supply stays.
    pub open spec fn transfer(
        self,
        invoker: Seq<char>,
        from: Seq<char>,
        to: Seq<char>,
        amount: int,
    ) -> Result<LedgerState, Error> {
        if invoker != from {
            Err(Error::Unauthorized)
        } else if amount <= 0 {
            Err(Error::InvalidAmount)
        } else if self.balance(from) < amount {
            Err(Error::InsufficientBalance)
        } else {
            Ok(self.credit(from, -amount).credit(to, amount))
        }
    }
}

/// The token ledger.
pub struct SyncToken {
    minter: Option<Address>,
    balances: AddressMap<i128>,
    total_supply: i128,
}

impl View for SyncToken {
    type V = LedgerState;

    closed spec fn view(&self) -> LedgerState {
        LedgerState {
            minter: opt_view(self.minter),
            balances: self.balances@.map_values(|amount: i128| amount as int),
            total_supply: self.total_supply as int,
        }
    }
}

impl SyncToken {
    /// The ledger is one that the operations below have built.
    pub closed spec fn wf(&self) -> bool {
        self.balances.wf() && self@.valid()
    }

    /// A ledger that these operations have built holds no negative balance,
    /// and its balances add up to its total supply.
    pub proof fn law_balances_add_up(&self)
        requires
            self.wf(),
        ensures
            self@.valid(),
    {
    }

    /// A ledger without issuer, balances or supply.
    pub fn new() -> (token: SyncToken)
        ensures
            token.wf(),
            token@ == LedgerState::empty(),
    {
        let token = SyncToken { minter: None, balances: AddressMap::new(), total_supply: 0 };
        proof {
            assert(token@.balances =~= Map::<Seq<char>, int>::empty());
            lemma_total_empty();
        }
        token
    }

    /// The ledger that holds the given issuer, balances and total supply.
    /// There is none where two rows hold a balance of the same identity,
    /// where a balance is negative, or where the balances do not add up to
    /// the total supply.
    pub fn restore(minter: Option<Address>, balances: Vec<(Address, i128)>, total_supply: i128) -> (r:
        Option<SyncToken>)
        ensures
            r is Some <==> rows_distinct(balances@) && rows_not_negative(balances@) && rows_total(
                balances@,
            ) == total_supply,
            r matches Some(token) ==> token.wf() && token@ == (LedgerState {
                minter: opt_view(minter),
                balances: rows_balances(balances@),
                total_supply: total_supply as int,
            }),
    {
        let ghost rows = balances@;
        if total_supply < 0 {
            proof {
                if rows_not_negative(rows) {
                    lemma_rows_total_grows(rows, 0);
                }
            }
            return None;
        }
        let mut sum: i128 = 0;
        let mut i: usize = 0;
        while i < balances.len()
            invariant
                rows == balances@,
                i <= rows.len(),
                rows_not_negative(rows.take(i as int)),
                sum == rows_total(rows.take(i as int)),
                0 <= sum <= total_supply,
            decreases rows.len() - i,
        {
            let amount = balances[i].1;
            proof {
                assert(rows.take(i + 1).drop_last() =~= rows.take(i as int));
                assert(rows.take(i + 1).last() == rows[i as int]);
                if rows_not_negative(rows) {
                    lemma_rows_total_grows(rows, i + 1);
                }
            }
            if amount < 0 || amount > total_supply - sum {
                return None;
            }
            sum = sum + amount;
            i += 1;
            proof {
                assert forall|j: int| 0 <= j < i implies (#[trigger] rows.take(i as int)[j]).1
                    >= 0 by {
                    if j < i - 1 {
                        assert(rows.take(i - 1)[j] == rows[j]);
                    }
                }
            }
        }
        proof {
            assert(rows.take(i as int) =~= rows);
        }
        if sum != total_supply {
            return None;
        }
        match AddressMap::from_rows(balances) {
            Some(held) => {
                proof {
                    lemma_rows_balances(rows);
                }
                Some(SyncToken { minter, balances: held, total_supply })
            },
            None => None,
        }
    }

    /// The balances that the ledger holds, one row for an identity.
    pub fn balances(&self) -> (rows: &Vec<(Address, i128)>)
        requires
            self.wf(),
        ensures
            rows_distinct(rows@),
            rows_balances(rows@) == self@.balances,
    {
        self.balances.rows()
    }

    /// Sets the issuer. This is done once: a second call is refused and
    /// changes nothing.
    pub fn initialize(&mut self, minter: Address) -> (r: Result<(), Error>)
        requires
            old(self).wf(),
        ensures
            final(self).wf(),
            match old(self)@.initialize(minter@) {
                Ok(next) => r is Ok && final(self)@ == next,
                Err(e) => r == Err::<(), Error>(e) && final(self)@ == old(self)@,
            },
    {
        if self.minter.is_some() {
            return Err(Error::AlreadyInitialized);
        }
        self.minter = Some(minter);
        Ok(())
    }

    /// Mints `amount` to `to` on behalf of `invoker`.
    ///
    /// Refused with `Unauthorized` unless `invoker` is the issuer, then with
    /// `InvalidAmount` unless the amount is positive, then with `Overflow`
    /// where the total supply would pass the largest amount. Otherwise the
    /// balance of `to` and the total supply both grow by `amount`. A refusal
    /// changes nothing.
    pub fn mint(&mut self, invoker: &Address, to: &Address, amount: i128) -> (r: Result<(), Error>)
        requires
            old(self).wf(),
        ensures
            final(self).wf(),
            match old(self)@.mint(invoker@, to@, amount as int) {
                Ok(next) => r is Ok && final(self)@ == next,
                Err(e) => r == Err::<(), Error>(e) && final(self)@ == old(self)@,
            },
    {
        match &self.minter {
            Some(minter) => {
                if *minter != *invoker {
                    return Err(Error::Unauthorized);
                }
            },
            None => {
                return Err(Error::Unauthorized);
            },
        }
        if amount <= 0 {
            return Err(Error::InvalidAmount);
        }
        proof {
            lemma_balance_within_total(self@.balances, to@);
        }
        if amount > i128::MAX - self.total_supply {
            return Err(Error::Overflow);
        }
        let current: i128 = match self.balances.get(to) {
            Some(held) => *held,
            None => 0,
        };
        let ghost before = self@;
        self.balances.insert(to.clone(), current + amount);
        self.total_supply = self.total_supply + amount;
        proof {
            let next = before.mint(invoker@, to@, amount as int)->Ok_0;
            assert(self@.balances =~= next.balances);
            lemma_total_insert(before.balances, to@, current + amount);
        }
        Ok(())
    }

    /// Moves `amount` from `from` to `to` on behalf of `invoker`.
    ///
    /// Refused with `Unauthorized` unless `invoker` is `from`, then with
    /// `InvalidAmount` unless the amount is positive, then with
    /// `InsufficientBalance` where the balance of `from` is smaller than the
    /// amount. Otherwise `from` is debited and `to` credited. The total
    /// supply stays, and a refusal changes nothing.
    pub fn transfer(&mut self, invoker: &Address, from: &Address, to: &Address, amount: i128) -> (r:
        Result<(), Error>)
        requires
            old(self).wf(),
        ensures
            final(self).wf(),
            match old(self)@.transfer(invoker@, from@, to@, amount as int) {
                Ok(next) => r is Ok && final(self)@ == next,
                Err(e) => r == Err::<(), Error>(e) && final(self)@ == old(self)@,
            },
    {
        if *invoker != *from {
            return Err(Error::Unauthorized);
        }
        if amount <= 0 {
            return Err(Error::InvalidAmount);
        }
        let held: i128 = match self.balances.get(from) {
            Some(held) => *held,
            None => 0,
        };
        if held < amount {
            return Err(Error::InsufficientBalance);
        }
        let ghost before = self@;
        self.balances.insert(from.clone(), held - amount);
        let ghost debited = self@;
        proof {
            assert(debited.balances =~= before.credit(from@, -amount).balances);
            lemma_total_insert(before.balances, from@, held - amount);
            if from@ != to@ {
                lemma_two_balances_within_total(before.balances, from@, to@);
            }
        }
        let current: i128 = match self.balances.get(to) {
            Some(held) => *held,
            None => 0,
        };
        self.balances.insert(to.clone(), current + amount);
        proof {
            let next = before.transfer(invoker@, from@, to@, amount as int)->Ok_0;
            assert(self@.balances =~= next.balances);
            lemma_total_insert(debited.balances, to@, current + amount);
        }
        Ok(())
    }

    /// The balance of `addr`: zero for an identity the ledger has not seen.
    pub fn balance(&self, addr: &Address) -> (r: i128)
        requires
            self.wf(),
        ensures
            r == self@.balance(addr@),
    {
        match self.balances.get(addr) {
            Some(held) => *held,
            None => 0,
        }
    }

    /// The total supply: zero before the first mint.
    pub fn total_supply(&self) -> (r: i128)
        ensures
            r == self@.total_supply,
    {
        self.total_supply
    }

    /// A second ledger that holds what this one holds.
    pub fn duplicate(&self) -> (copy: SyncToken)
        requires
            self.wf(),
        ensures
            copy.wf(),
            copy@ == self@,
    {
        SyncToken {
            minter: self.minter(),
            balances: self.balances.duplicate(),
            total_supply: self.total_supply,
        }
    }

    /// The issuer, once it is set.
    pub fn minter(&self) -> (r: Option<Address>)
        ensures
            opt_view(r) == self@.minter,
    {
        match &self.minter {
            Some(minter) => Some(minter.clone()),
            None => None,
        }
    }
}

/// The issuer is set once: after it is set, every further attempt is
/// refused, whoever is named.
pub proof fn law_initialize_once(state: LedgerState, first: Seq<char>, second: Seq<char>)
    requires
        state.initialize(first) is Ok,
    ensures
        state.initialize(first)->Ok_0.initialize(second) == Err::<LedgerState, Error>(
            Error::AlreadyInitialized,
        ),
{
}

/// The empty ledger is valid, and setting the issuer keeps a ledger valid
/// and its balances and total supply as they are.
pub proof fn law_initialize_keeps_balances(state: LedgerState, minter: Seq<char>)
    ensures
        LedgerState::empty().valid(),
        state.initialize(minter) is Ok ==> state.initialize(minter)->Ok_0.balances
            == state.balances && state.initialize(minter)->Ok_0.total_supply
            == state.total_supply,
        state.valid() && state.initialize(minter) is Ok ==> state.initialize(minter)->Ok_0.valid(),
{
    lemma_total_empty();
}

/// Whoever is not the issuer is refused a mint, whatever the amount; before
/// an issuer is set, everybody is.
pub proof fn law_mint_is_for_the_issuer(
    state: LedgerState,
    invoker: Seq<char>,
    to: Seq<char>,
    amount: int,
)
    requires
        state.minter != Some(invoker),
    ensures
        state.mint(invoker, to, amount) == Err::<LedgerState, Error>(Error::Unauthorized),
{
}

/// An accepted mint adds the amount to the receiver's balance and to the
/// total supply, leaves every other balance alone, and keeps the ledger
/// valid.
pub proof fn law_mint_adds(state: LedgerState, invoker: Seq<char>, to: Seq<char>, amount: int)
    requires
        state.valid(),
        state.mint(invoker, to, amount) is Ok,
    ensures
        state.mint(invoker, to, amount)->Ok_0.valid(),
        state.mint(invoker, to, amount)->Ok_0.balance(to) == state.balance(to) + amount,
        state.mint(invoker, to, amount)->Ok_0.total_supply == state.total_supply + amount,
        forall|other: Seq<char>|
            other != to ==> state.mint(invoker, to, amount)->Ok_0.balance(other) == state.balance(
                other,
            ),
{
    lemma_total_insert(state.balances, to, state.balance(to) + amount);
}

/// One mint after another, as far as both are accepted.
pub open spec fn mint_twice(
    state: LedgerState,
    invoker: Seq<char>,
    first_to: Seq<char>,
    first: int,
    second_to: Seq<char>,
    second: int,
) -> Result<LedgerState, Error> {
    match state.mint(invoker, first_to, first) {
        Ok(next) => next.mint(invoker, second_to, second),
        Err(e) => Err(e),
    }
}

/// Two mints can be made in either order: one order is accepted exactly when
/// the other is, and then both leave the same ledger. Made to one receiver,
/// they add up on that balance.
pub proof fn law_mints_commute(
    state: LedgerState,
    invoker: Seq<char>,
    x: Seq<char>,
    p: int,
    y: Seq<char>,
    q: int,
)
    ensures
        mint_twice(state, invoker, x, p, y, q) is Ok <==> mint_twice(state, invoker, y, q, x, p)
            is Ok,
        mint_twice(state, invoker, x, p, y, q) is Ok ==> mint_twice(state, invoker, x, p, y, q)
            == mint_twice(state, invoker, y, q, x, p),
        mint_twice(state, invoker, x, p, x, q) is Ok ==> mint_twice(
            state,
            invoker,
            x,
            p,
            x,
            q,
        )->Ok_0.balance(x) == state.balance(x) + p + q,
{
    if mint_twice(state, invoker, x, p, y, q) is Ok {
        let one = mint_twice(state, invoker, x, p, y, q)->Ok_0;
        let other = mint_twice(state, invoker, y, q, x, p)->Ok_0;
        assert(one.balances =~= other.balances);
    }
}

/// A transfer of more than the sender holds is refused for want of balance,
/// and a refused transfer leaves the ledger, so both balances, as they were.
pub proof fn law_transfer_needs_balance(
    state: LedgerState,
    from: Seq<char>,
    to: Seq<char>,
    amount: int,
)
    requires
        state.valid(),
        amount > state.balance(from),
    ensures
        state.transfer(from, from, to, amount) == Err::<LedgerState, Error>(
            Error::InsufficientBalance,
        ),
{
}

/// An accepted transfer takes the amount from the sender and gives it to the
/// receiver, leaves every other balance and the total supply alone, and
/// keeps the ledger valid: no balance turns negative, and the balances still
/// add up to the total supply.
pub proof fn law_transfer_conserves(
    state: LedgerState,
    invoker: Seq<char>,
    from: Seq<char>,
    to: Seq<char>,
    amount: int,
)
    requires
        state.valid(),
        state.transfer(invoker, from, to, amount) is Ok,
    ensures
        state.transfer(invoker, from, to, amount)->Ok_0.valid(),
        state.transfer(invoker, from, to, amount)->Ok_0.total_supply == state.total_supply,
        from != to ==> state.transfer(invoker, from, to, amount)->Ok_0.balance(from)
            == state.balance(from) - amount,
        from != to ==> state.transfer(invoker, from, to, amount)->Ok_0.balance(to)
            == state.balance(to) + amount,
        from == to ==> state.transfer(invoker, from, to, amount)->Ok_0.balance(from)
            == state.balance(from),
        forall|other: Seq<char>|
            other != from && other != to ==> state.transfer(
                invoker,
                from,
                to,
                amount,
            )->Ok_0.balance(other) == state.balance(other),
{
    let debited = state.credit(from, -amount);
    lemma_total_insert(state.balances, from, state.balance(from) - amount);
    lemma_total_insert(debited.balances, to, debited.balance(to) + amount);
}

} // verus!
