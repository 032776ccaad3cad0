//! The goal escrow: goals that two partners approve, each paid out once.
//!
//! A goal is created for two distinct partners with a positive reward and an
//! unlock time. Each partner approves it, not before the unlock time. The
//! approval that completes the pair mints the reward to each partner through
//! a minting port and marks the goal as minted; from then on the goal refuses
//! every further approval.

use crate::address::{opt_view, Address};
use crate::error::Error;
use std::collections::HashMap;
use vstd::prelude::*;

verus! {

broadcast use vstd::std_specs::hash::group_hash_axioms;

/// A goal as it is recorded: the two partners, the reward that each of them
/// receives, the time before which nobody may approve, and whether the
/// rewards have been minted.
#[derive(Debug)]
pub struct Goal {
    pub partner_a: Address,
    pub partner_b: Address,
    pub reward_amount: i128,
    pub unlock_timestamp: u64,
    pub minted: bool,
}

/// What a recorded goal says.
pub struct GoalView {
    pub partner_a: Seq<char>,
    pub partner_b: Seq<char>,
    pub reward_amount: int,
    pub unlock_timestamp: int,
    pub minted: bool,
}

impl View for Goal {
    type V = GoalView;

    open spec fn view(&self) -> GoalView {
        GoalView {
            partner_a: self.partner_a@,
            partner_b: self.partner_b@,
            reward_amount: self.reward_amount as int,
            unlock_timestamp: self.unlock_timestamp as int,
            minted: self.minted,
        }
    }
}

impl Clone for Goal {
    fn clone(&self) -> (g: Goal)
        ensures
            g@ == self@,
    {
        Goal {
            partner_a: self.partner_a.clone(),
            partner_b: self.partner_b.clone(),
            reward_amount: self.reward_amount,
            unlock_timestamp: self.unlock_timestamp,
            minted: self.minted,
        }
    }
}

/// A goal together with the approvals given so far.
pub struct GoalState {
    pub goal: GoalView,
    pub approved_a: bool,
    pub approved_b: bool,
}

impl GoalState {
    /// The partners differ, the reward is positive, and the goal is minted
    /// exactly when both partners have approved.
    pub open spec fn valid(self) -> bool {
        &&& self.goal.partner_a != self.goal.partner_b
        &&& self.goal.reward_amount > 0
        &&& self.goal.minted <==> self.approved_a && self.approved_b
    }

    /// Whether `who` is one of the two partners.
    pub open spec fn is_partner(self, who: Seq<char>) -> bool {
        who == self.goal.partner_a || who == self.goal.partner_b
    }

    /// Whether `who` is a partner whose approval is recorded.
    pub open spec fn approved_by(self, who: Seq<char>) -> bool {
        ||| who == self.goal.partner_a && self.approved_a
        ||| who == self.goal.partner_b && self.approved_b
    }

    /// The goal with the approval of `who` recorded.
    pub open spec fn approve(self, who: Seq<char>) -> GoalState {
        GoalState {
            goal: self.goal,
            approved_a: self.approved_a || who == self.goal.partner_a,
            approved_b: self.approved_b || who == self.goal.partner_b,
        }
    }

    /// The goal marked as minted.
    pub open spec fn mark_minted(self) -> GoalState {
        GoalState {
            goal: GoalView { minted: true, ..self.goal },
            approved_a: self.approved_a,
            approved_b: self.approved_b,
        }
    }
}

/// What the escrow holds: the token ledger it pays from, once set, and the
/// goals by their ids.
pub struct VaultState {
    pub token_contract: Option<Seq<char>>,
    pub goals: Map<u32, GoalState>,
}

impl VaultState {
    /// Every goal is valid.
    pub open spec fn valid(self) -> bool {
        forall|id: u32| #[trigger] self.goals.contains_key(id) ==> self.goals[id].valid()
    }

    /// Setting the token ledger: refused once it is set.
    pub open spec fn init(self, token_contract: Seq<char>) -> Result<VaultState, Error> {
        if self.token_contract is Some {
            Err(Error::AlreadyInitialized)
        } else {
            Ok(VaultState { token_contract: Some(token_contract), ..self })
        }
    }

    /// Creating a goal: the reward must be positive, the partners distinct
    /// and the id unused. The new goal has no approval and is not minted.
    pub open spec fn create_goal(
        self,
        goal_id: u32,
        partner_a: Seq<char>,
        partner_b: Seq<char>,
        reward_amount: int,
        unlock_timestamp: int,
    ) -> Result<VaultState, Error> {
        if reward_amount <= 0 {
            Err(Error::InvalidReward)
        } else if partner_a == partner_b {
            Err(Error::InvalidPartners)
        } else if self.goals.contains_key(goal_id) {
            Err(Error::GoalAlreadyExists)
        } else {
            Ok(
                VaultState {
                    goals: self.goals.insert(
                        goal_id,
                        GoalState {
                            goal: GoalView {
                                partner_a,
                                partner_b,
                                reward_amount,
                                unlock_timestamp,
                                minted: false,
                            },
                            approved_a: false,
                            approved_b: false,
                        },
                    ),
                    ..self
                },
            )
        }
    }

    /// Why an approval is refused before anything is recorded, if it is.
    /// The invoker must be the approver, the goal must exist and not be
    /// minted, the approver must be a partner, and the unlock time must have
    /// come: `now` earlier than the unlock time is refused, `now` equal to it
    /// is not.
    pub open spec fn approval_refused(
        self,
        invoker: Seq<char>,
        approver: Seq<char>,
        goal_id: u32,
        now: int,
    ) -> Option<Error> {
        if invoker != approver {
            Some(Error::Unauthorized)
        } else if !self.goals.contains_key(goal_id) {
            Some(Error::GoalNotFound)
        } else if self.goals[goal_id].goal.minted {
            Some(Error::AlreadyMinted)
        } else if !self.goals[goal_id].is_partner(approver) {
            Some(Error::NotAParticipant)
        } else if now < self.goals[goal_id].goal.unlock_timestamp {
            Some(Error::TimeLocked)
        } else {
            None
        }
    }

    /// The escrow with goal `goal_id` replaced by `goal`.
    pub open spec fn with_goal(self, goal_id: u32, goal: GoalState) -> VaultState {
        VaultState { goals: self.goals.insert(goal_id, goal), ..self }
    }

    /// Approving a goal, where the minting port accepts what it is asked to
    /// mint. The result is the escrow afterwards and whether this approval
    /// completed the pair, in which case the reward goes to each partner and
    /// the goal is marked as minted. A completing approval is refused while
    /// no token ledger is set.
    pub open spec fn approve_goal(
        self,
        invoker: Seq<char>,
        approver: Seq<char>,
        goal_id: u32,
        now: int,
    ) -> Result<(VaultState, bool), Error> {
        match self.approval_refused(invoker, approver, goal_id, now) {
            Some(e) => Err(e),
            None => {
                let approved = self.goals[goal_id].approve(approver);
                if !(approved.approved_a && approved.approved_b) {
                    Ok((self.with_goal(goal_id, approved), false))
                } else if self.token_contract is None {
                    Err(Error::NotInitialized)
                } else {
                    Ok((self.with_goal(goal_id, approved.mark_minted()), true))
                }
            },
        }
    }

    /// Whether a goal is minted; an unknown goal is an error.
    pub open spec fn is_goal_complete(self, goal_id: u32) -> Result<bool, Error> {
        if self.goals.contains_key(goal_id) {
            Ok(self.goals[goal_id].goal.minted)
        } else {
            Err(Error::GoalNotFound)
        }
    }

    /// Whether the approval of `user` for a goal is recorded; for an unknown
    /// goal it is not.
    pub open spec fn is_goal_approved_by(self, goal_id: u32, user: Seq<char>) -> bool {
        self.goals.contains_key(goal_id) && self.goals[goal_id].approved_by(user)
    }
}

/// The port through which the escrow has rewards minted.
///
/// A port stands for a ledger, which is its view. It says what a mint makes
/// of a ledger and which balances a ledger records, and shows that a mint it
/// accepts credits the receiver with the amount and nobody else with
/// anything. Its `mint` then does to the ledger behind it what it says, and
/// a checkpoint stands for the same ledger.
pub trait TokenContract: Sized + View {
    /// The port is in working order.
    spec fn wf(&self) -> bool;

    /// The balance that `ledger` records for `who`.
    spec fn balance(ledger: Self::V, who: Seq<char>) -> int;

    /// What a mint of `amount` to `to` makes of `ledger`: the ledger
    /// afterwards, or the refusal.
    spec fn mint_spec(ledger: Self::V, to: Seq<char>, amount: int) -> Result<Self::V, Error>;

    /// An accepted mint credits the receiver with the amount and nobody else
    /// with anything.
    proof fn mint_credits(ledger: Self::V, to: Seq<char>, amount: int)
        requires
            Self::mint_spec(ledger, to, amount) is Ok,
        ensures
            forall|who: Seq<char>| #[trigger]
                Self::balance(Self::mint_spec(ledger, to, amount)->Ok_0, who) == Self::balance(
                    ledger,
                    who,
                ) + if who == to {
                    amount
                } else {
                    0
                },
    ;

    /// Credits `amount` to `to`, or refuses and changes nothing.
    fn mint(&mut self, to: &Address, amount: i128) -> (r: Result<(), Error>)
        requires
            old(self).wf(),
        ensures
            final(self).wf(),
            match Self::mint_spec(old(self)@, to@, amount as int) {
                Ok(next) => r is Ok && final(self)@ == next,
                Err(e) => r == Err::<(), Error>(e) && final(self)@ == old(self)@,
            },
    ;

    /// The port as it stands, to go back to when a payment of several mints
    /// is refused halfway.
    fn checkpoint(&self) -> (saved: Self)
        requires
            self.wf(),
        ensures
            saved.wf(),
            saved@ == self@,
    ;
}

/// What the payment of a completed goal makes of a ledger: `amount` minted
/// to `partner_a` and then to `partner_b`, or the first refusal.
pub open spec fn mint_both<T: TokenContract>(
    ledger: T::V,
    partner_a: Seq<char>,
    partner_b: Seq<char>,
    amount: int,
) -> Result<T::V, Error> {
    match T::mint_spec(ledger, partner_a, amount) {
        Ok(paid_a) => T::mint_spec(paid_a, partner_b, amount),
        Err(e) => Err(e),
    }
}

struct GoalSlot {
    goal: Goal,
    approved_a: bool,
    approved_b: bool,
}

impl View for GoalSlot {
    type V = GoalState;

    closed spec fn view(&self) -> GoalState {
        GoalState { goal: self.goal@, approved_a: self.approved_a, approved_b: self.approved_b }
    }
}

/// The goal escrow.
pub struct GoalsVault {
    token_contract: Option<Address>,
    goals: HashMap<u32, GoalSlot>,
}

impl View for GoalsVault {
    type V = VaultState;

    closed spec fn view(&self) -> VaultState {
        VaultState {
            token_contract: opt_view(self.token_contract),
            goals: Map::new(|id: u32| self.goals@.contains_key(id), |id: u32| self.goals@[id]@),
        }
    }
}

impl GoalsVault {
    /// Every goal held is valid.
    pub open spec fn wf(&self) -> bool {
        self@.valid()
    }

    /// An escrow with no token ledger set and no goal.
    pub fn new() -> (vault: GoalsVault)
        ensures
            vault.wf(),
            vault@ == (VaultState { token_contract: None, goals: Map::empty() }),
    {
        let vault = GoalsVault { token_contract: None, goals: HashMap::new() };
        assert(vault@.goals =~= Map::<u32, GoalState>::empty());
        vault
    }

    /// Takes in goal `goal_id` as it was recorded before, with the approvals
    /// given so far. The record is taken, and the result is true, where the
    /// id is unused and the goal is valid: a positive reward, two distinct
    /// partners, and minted exactly when both have approved. Otherwise
    /// nothing changes.
    pub fn restore_goal(&mut self, goal_id: u32, goal: Goal, approved_a: bool, approved_b: bool) -> (r:
        bool)
        requires
            old(self).wf(),
        ensures
            final(self).wf(),
            r <==> !old(self)@.goals.contains_key(goal_id) && (GoalState {
                goal: goal@,
                approved_a,
                approved_b,
            }).valid(),
            r ==> final(self)@ == old(self)@.with_goal(
                goal_id,
                GoalState { goal: goal@, approved_a, approved_b },
            ),
            !r ==> final(self)@ == old(self)@,
    {
        if goal.reward_amount <= 0 || goal.partner_a == goal.partner_b || goal.minted != (approved_a
            && approved_b) || self.goals.contains_key(&goal_id) {
            return false;
        }
        let ghost before = self@;
        let ghost state = GoalState { goal: goal@, approved_a, approved_b };
        self.goals.insert(goal_id, GoalSlot { goal, approved_a, approved_b });
        assert(self@.goals =~= before.with_goal(goal_id, state).goals);
        true
    }

    /// Sets the token ledger that rewards are paid from. This is done once:
    /// a second call is refused and changes nothing.
    pub fn init(&mut self, token_contract: Address) -> (r: Result<(), Error>)
        requires
            old(self).wf(),
        ensures
            final(self).wf(),
            match old(self)@.init(token_contract@) {
                Ok(next) => r is Ok && final(self)@ == next,
                Err(e) => r == Err::<(), Error>(e) && final(self)@ == old(self)@,
            },
    {
        if self.token_contract.is_some() {
            return Err(Error::AlreadyInitialized);
        }
        self.token_contract = Some(token_contract);
        Ok(())
    }

    /// Creates goal `goal_id` for two partners. A reward that is not
    /// positive, two equal partners and an id that is in use are refused, in
    /// this order, and a refusal changes nothing.
    pub fn create_goal(
        &mut self,
        goal_id: u32,
        partner_a: Address,
        partner_b: Address,
        reward_amount: i128,
        unlock_timestamp: u64,
    ) -> (r: Result<(), Error>)
        requires
            old(self).wf(),
        ensures
            final(self).wf(),
            match old(self)@.create_goal(
                goal_id,
                partner_a@,
                partner_b@,
                reward_amount as int,
                unlock_timestamp as int,
            ) {
                Ok(next) => r is Ok && final(self)@ == next,
                Err(e) => r == Err::<(), Error>(e) && final(self)@ == old(self)@,
            },
    {
        if reward_amount <= 0 {
            return Err(Error::InvalidReward);
        }
        if partner_a == partner_b {
            return Err(Error::InvalidPartners);
        }
        if self.goals.contains_key(&goal_id) {
            return Err(Error::GoalAlreadyExists);
        }
        let ghost before = self@;
        let goal = Goal { partner_a, partner_b, reward_amount, unlock_timestamp, minted: false };
        self.goals.insert(goal_id, GoalSlot { goal, approved_a: false, approved_b: false });
        proof {
            let next = before.create_goal(
                goal_id,
                partner_a@,
                partner_b@,
                reward_amount as int,
                unlock_timestamp as int,
            )->Ok_0;
            assert(self@.goals =~= next.goals);
        }
        Ok(())
    }

    /// Records the approval of `approver` for goal `goal_id` at time `now`,
    /// on behalf of `invoker`, and pays out through `token` when this
    /// approval completes the pair.
    ///
    /// A refused approval changes neither the escrow nor the ledger. An
    /// approval that does not complete the pair is recorded and mints
    /// nothing. A completing approval has the reward minted to the first
    /// partner and then to the second; when the port accepts both, the goal
    /// is marked as minted and the result is `Ok(true)`; when it refuses
    /// either, the ledger is put back, the escrow is left as it was and the
    /// result is the refusal.
    pub fn approve_goal<T: TokenContract>(
        &mut self,
        token: &mut T,
        invoker: &Address,
        approver: &Address,
        goal_id: u32,
        now: u64,
    ) -> (r: Result<bool, Error>)
        requires
            old(self).wf(),
            old(token).wf(),
        ensures
            final(self).wf(),
            final(token).wf(),
            match old(self)@.approve_goal(invoker@, approver@, goal_id, now as int) {
                Err(e) => {
                    &&& r == Err::<bool, Error>(e)
                    &&& final(self)@ == old(self)@
                    &&& *final(token) == *old(token)
                },
                Ok((next, false)) => {
                    &&& r == Ok::<bool, Error>(false)
                    &&& final(self)@ == next
                    &&& *final(token) == *old(token)
                },
                Ok((next, true)) => match mint_both::<T>(
                    old(token)@,
                    old(self)@.goals[goal_id].goal.partner_a,
                    old(self)@.goals[goal_id].goal.partner_b,
                    old(self)@.goals[goal_id].goal.reward_amount,
                ) {
                    Ok(paid) => {
                        &&& r == Ok::<bool, Error>(true)
                        &&& final(self)@ == next
                        &&& final(token)@ == paid
                    },
                    Err(e) => {
                        &&& r == Err::<bool, Error>(e)
                        &&& final(self)@ == old(self)@
                        &&& final(token)@ == old(token)@
                    },
                },
            },
    {
        if *invoker != *approver {
            return Err(Error::Unauthorized);
        }
        let slot = match self.goals.get(&goal_id) {
            Some(slot) => slot,
            None => {
                return Err(Error::GoalNotFound);
            },
        };
        if slot.goal.minted {
            return Err(Error::AlreadyMinted);
        }
        let is_a = *approver == slot.goal.partner_a;
        let is_b = *approver == slot.goal.partner_b;
        if !is_a && !is_b {
            return Err(Error::NotAParticipant);
        }
        if now < slot.goal.unlock_timestamp {
            return Err(Error::TimeLocked);
        }
        let approved_a = slot.approved_a || is_a;
        let approved_b = slot.approved_b || is_b;
        let complete = approved_a && approved_b;
        let mut goal = slot.goal.clone();
        if complete {
            if self.token_contract.is_none() {
                return Err(Error::NotInitialized);
            }
            let saved = token.checkpoint();
            match token.mint(&goal.partner_a, goal.reward_amount) {
                Ok(()) => {},
                Err(e) => {
                    return Err(e);
                },
            }
            match token.mint(&goal.partner_b, goal.reward_amount) {
                Ok(()) => {},
                Err(e) => {
                    *token = saved;
                    return Err(e);
                },
            }
            goal.minted = true;
        }
        let ghost before = self@;
        self.goals.insert(goal_id, GoalSlot { goal, approved_a, approved_b });
        proof {
            let next = before.approve_goal(invoker@, approver@, goal_id, now as int)->Ok_0.0;
            assert(self@.goals =~= next.goals);
        }
        Ok(complete)
    }

    /// Whether the rewards of goal `goal_id` have been minted. An unknown
    /// goal is an error.
    pub fn is_goal_complete(&self, goal_id: u32) -> (r: Result<bool, Error>)
        ensures
            r == self@.is_goal_complete(goal_id),
    {
        match self.goals.get(&goal_id) {
            Some(slot) => Ok(slot.goal.minted),
            None => Err(Error::GoalNotFound),
        }
    }

    /// Whether the approval of `user` for goal `goal_id` is recorded. For an
    /// unknown goal, and for a user who is no partner of it, it is not.
    pub fn is_goal_approved_by(&self, goal_id: u32, user: &Address) -> (r: bool)
        ensures
            r == self@.is_goal_approved_by(goal_id, user@),
    {
        match self.goals.get(&goal_id) {
            Some(slot) => {
                (*user == slot.goal.partner_a && slot.approved_a) || (*user == slot.goal.partner_b
                    && slot.approved_b)
            },
            None => false,
        }
    }

    /// The record of goal `goal_id`, if there is such a goal.
    pub fn get_goal(&self, goal_id: u32) -> (r: Option<Goal>)
        ensures
            match r {
                Some(goal) => self@.goals.contains_key(goal_id) && goal@ == self@.goals[goal_id].goal,
                None => !self@.goals.contains_key(goal_id),
            },
    {
        match self.goals.get(&goal_id) {
            Some(slot) => Some(slot.goal.clone()),
            None => None,
        }
    }

    /// The token ledger that rewards are paid from, once it is set.
    pub fn token_contract(&self) -> (r: Option<Address>)
        ensures
            opt_view(r) == self@.token_contract,
    {
        match &self.token_contract {
            Some(token) => Some(token.clone()),
            None => None,
        }
    }
}

/// A payment that is accepted credits each partner with the amount once,
/// and nobody else with anything.
pub proof fn law_payment_credits_each_partner_once<T: TokenContract>(
    ledger: T::V,
    partner_a: Seq<char>,
    partner_b: Seq<char>,
    amount: int,
)
    requires
        mint_both::<T>(ledger, partner_a, partner_b, amount) is Ok,
    ensures
        forall|who: Seq<char>| #[trigger]
            T::balance(mint_both::<T>(ledger, partner_a, partner_b, amount)->Ok_0, who)
                == T::balance(ledger, who) + (if who == partner_a {
                amount
            } else {
                0
            }) + (if who == partner_b {
                amount
            } else {
                0
            }),
{
    let paid_a = T::mint_spec(ledger, partner_a, amount)->Ok_0;
    T::mint_credits(ledger, partner_a, amount);
    T::mint_credits(paid_a, partner_b, amount);
}

/// A goal as `create_goal` leaves it: no approval, not minted.
pub open spec fn fresh_goal(goal: GoalState) -> bool {
    !goal.approved_a && !goal.approved_b && !goal.goal.minted
}

/// The token ledger is set once: after it is set, every further attempt is
/// refused, whatever is named.
pub proof fn law_init_once(state: VaultState, first: Seq<char>, second: Seq<char>)
    requires
        state.init(first) is Ok,
    ensures
        state.init(first)->Ok_0.init(second) == Err::<VaultState, Error>(
            Error::AlreadyInitialized,
        ),
{
}

/// A created goal is valid and fresh, every other goal stays as it was, and
/// the id cannot be used again.
pub proof fn law_create_goal(
    state: VaultState,
    goal_id: u32,
    partner_a: Seq<char>,
    partner_b: Seq<char>,
    reward_amount: int,
    unlock_timestamp: int,
)
    requires
        state.valid(),
        state.create_goal(goal_id, partner_a, partner_b, reward_amount, unlock_timestamp) is Ok,
    ensures
        ({
            let next = state.create_goal(
                goal_id,
                partner_a,
                partner_b,
                reward_amount,
                unlock_timestamp,
            )->Ok_0;
            &&& next.valid()
            &&& fresh_goal(next.goals[goal_id])
            &&& next.is_goal_complete(goal_id) == Ok::<bool, Error>(false)
            &&& forall|other: u32|
                other != goal_id ==> next.goals.contains_key(other) == state.goals.contains_key(
                    other,
                ) && next.goals[other] == state.goals[other]
            &&& forall|a: Seq<char>, b: Seq<char>, reward: int, unlock: int|
                reward > 0 && a != b ==> #[trigger] next.create_goal(goal_id, a, b, reward, unlock)
                    == Err::<VaultState, Error>(Error::GoalAlreadyExists)
        }),
{
}

/// An accepted approval keeps every goal valid, touches no other goal,
/// changes nothing of the goal's record but whether it is minted, and never
/// takes back an approval.
pub proof fn law_approval_only_adds(
    state: VaultState,
    invoker: Seq<char>,
    approver: Seq<char>,
    goal_id: u32,
    now: int,
)
    requires
        state.valid(),
        state.approve_goal(invoker, approver, goal_id, now) is Ok,
    ensures
        ({
            let next = state.approve_goal(invoker, approver, goal_id, now)->Ok_0.0;
            let minted = state.approve_goal(invoker, approver, goal_id, now)->Ok_0.1;
            &&& next.valid()
            &&& next.token_contract == state.token_contract
            &&& next.goals.dom() == state.goals.dom()
            &&& next.is_goal_approved_by(goal_id, approver)
            &&& next.is_goal_complete(goal_id) == Ok::<bool, Error>(minted)
            &&& next.goals[goal_id].goal == (GoalView { minted, ..state.goals[goal_id].goal })
            &&& forall|who: Seq<char>|
                state.is_goal_approved_by(goal_id, who) ==> next.is_goal_approved_by(goal_id, who)
            &&& forall|other: u32| other != goal_id ==> next.goals[other] == state.goals[other]
        }),
{
    let next = state.approve_goal(invoker, approver, goal_id, now)->Ok_0.0;
    assert(next.goals.dom() =~= state.goals.dom());
}

/// One approval does not complete a fresh goal: nothing is minted and the
/// goal is not complete afterwards, also when the same partner approves
/// again.
pub proof fn law_one_approval_mints_nothing(
    state: VaultState,
    approver: Seq<char>,
    goal_id: u32,
    now: int,
    later: int,
)
    requires
        state.valid(),
        state.goals.contains_key(goal_id),
        fresh_goal(state.goals[goal_id]),
        state.approve_goal(approver, approver, goal_id, now) is Ok,
        later >= now,
    ensures
        ({
            let (once, minted) = state.approve_goal(approver, approver, goal_id, now)->Ok_0;
            &&& !minted
            &&& once.is_goal_complete(goal_id) == Ok::<bool, Error>(false)
            &&& once.approve_goal(approver, approver, goal_id, later) == Ok::<
                (VaultState, bool),
                Error,
            >((once, false))
        }),
{
    let (once, minted) = state.approve_goal(approver, approver, goal_id, now)->Ok_0;
    assert(once.goals[goal_id].approve(approver) == once.goals[goal_id]);
    assert(once.with_goal(goal_id, once.goals[goal_id]).goals =~= once.goals);
}

/// When the two partners of a fresh goal approve, in either order and not
/// before the unlock time, the first approval mints nothing and the second
/// completes the goal; both orders leave the same escrow; and every
/// approval after that is refused, so nothing is minted again.
pub proof fn law_both_approvals_mint_once(
    state: VaultState,
    goal_id: u32,
    first_time: int,
    second_time: int,
)
    requires
        state.valid(),
        state.token_contract is Some,
        state.goals.contains_key(goal_id),
        fresh_goal(state.goals[goal_id]),
        state.goals[goal_id].goal.unlock_timestamp <= first_time,
        state.goals[goal_id].goal.unlock_timestamp <= second_time,
    ensures
        ({
            let a = state.goals[goal_id].goal.partner_a;
            let b = state.goals[goal_id].goal.partner_b;
            let a_first = state.approve_goal(a, a, goal_id, first_time);
            let b_first = state.approve_goal(b, b, goal_id, first_time);
            &&& a_first is Ok && !a_first->Ok_0.1
            &&& b_first is Ok && !b_first->Ok_0.1
            &&& a_first->Ok_0.0.approve_goal(b, b, goal_id, second_time) is Ok
            &&& b_first->Ok_0.0.approve_goal(a, a, goal_id, second_time) is Ok
            &&& a_first->Ok_0.0.approve_goal(b, b, goal_id, second_time)->Ok_0.1
            &&& a_first->Ok_0.0.approve_goal(b, b, goal_id, second_time)
                == b_first->Ok_0.0.approve_goal(a, a, goal_id, second_time)
            &&& a_first->Ok_0.0.approve_goal(b, b, goal_id, second_time)->Ok_0.0.is_goal_complete(
                goal_id,
            ) == Ok::<bool, Error>(true)
        }),
{
    let a = state.goals[goal_id].goal.partner_a;
    let b = state.goals[goal_id].goal.partner_b;
    let a_first = state.approve_goal(a, a, goal_id, first_time)->Ok_0.0;
    let b_first = state.approve_goal(b, b, goal_id, first_time)->Ok_0.0;
    let a_then_b = a_first.approve_goal(b, b, goal_id, second_time)->Ok_0.0;
    let b_then_a = b_first.approve_goal(a, a, goal_id, second_time)->Ok_0.0;
    assert(a_then_b.goals =~= b_then_a.goals);
}

/// A minted goal stays minted, whatever is done to the escrow afterwards.
pub proof fn law_minted_stays_minted(state: VaultState, goal_id: u32)
    requires
        state.is_goal_complete(goal_id) == Ok::<bool, Error>(true),
    ensures
        forall|token: Seq<char>| #[trigger]
            state.init(token) is Ok ==> state.init(token)->Ok_0.is_goal_complete(goal_id) == Ok::<
                bool,
                Error,
            >(true),
        forall|id: u32, a: Seq<char>, b: Seq<char>, reward: int, unlock: int| #[trigger]
            state.create_goal(id, a, b, reward, unlock) is Ok ==> state.create_goal(
                id,
                a,
                b,
                reward,
                unlock,
            )->Ok_0.is_goal_complete(goal_id) == Ok::<bool, Error>(true),
        forall|invoker: Seq<char>, approver: Seq<char>, id: u32, now: int| #[trigger]
            state.approve_goal(invoker, approver, id, now) is Ok ==> state.approve_goal(
                invoker,
                approver,
                id,
                now,
            )->Ok_0.0.is_goal_complete(goal_id) == Ok::<bool, Error>(true),
{
}

/// Once a goal is minted, every approval of it is refused, whoever approves
/// and whenever: its rewards are minted once and never again.
pub proof fn law_minted_goal_refuses_approval(
    state: VaultState,
    invoker: Seq<char>,
    approver: Seq<char>,
    goal_id: u32,
    now: int,
)
    requires
        state.goals.contains_key(goal_id),
        state.goals[goal_id].goal.minted,
    ensures
        state.approve_goal(invoker, approver, goal_id, now) is Err,
        invoker == approver ==> state.approve_goal(invoker, approver, goal_id, now) == Err::<
            (VaultState, bool),
            Error,
        >(Error::AlreadyMinted),
{
}

/// An approval by a partner of a goal that is not minted is refused as
/// time-locked before the unlock time, and not refused from the unlock time
/// on.
pub proof fn law_time_lock(state: VaultState, approver: Seq<char>, goal_id: u32, now: int)
    requires
        state.goals.contains_key(goal_id),
        !state.goals[goal_id].goal.minted,
        state.goals[goal_id].is_partner(approver),
    ensures
        now < state.goals[goal_id].goal.unlock_timestamp ==> state.approve_goal(
            approver,
            approver,
            goal_id,
            now,
        ) == Err::<(VaultState, bool), Error>(Error::TimeLocked),
        now >= state.goals[goal_id].goal.unlock_timestamp ==> state.approval_refused(
            approver,
            approver,
            goal_id,
            now,
        ) is None,
        now >= state.goals[goal_id].goal.unlock_timestamp && state.token_contract is Some
            ==> state.approve_goal(approver, approver, goal_id, now) is Ok,
{
}

} // verus!
