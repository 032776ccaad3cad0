//! Goals that each user completes alone: one completion per user and goal,
//! rewarded when it is recorded.

use crate::address::Address;
use crate::error::Error;
use crate::goals_vault::TokenContract;
use vstd::prelude::*;

verus! {

/// What is recorded: the pairs of a user and a goal that the user has
/// completed.
pub struct CompletionState {
    pub completed: Set<(Seq<char>, u32)>,
}

impl CompletionState {
    /// Nothing completed yet.
    pub open spec fn empty() -> CompletionState {
        CompletionState { completed: Set::empty() }
    }

    /// Whether `user` has completed goal `goal_id`.
    pub open spec fn is_goal_complete(self, user: Seq<char>, goal_id: u32) -> bool {
        self.completed.contains((user, goal_id))
    }

    /// Why a completion is refused, if it is: the invoker must be the user,
    /// the reward positive, and the goal not yet completed by this user.
    pub open spec fn completion_refused(
        self,
        invoker: Seq<char>,
        user: Seq<char>,
        goal_id: u32,
        reward_amount: int,
    ) -> Option<Error> {
        if invoker != user {
            Some(Error::Unauthorized)
        } else if reward_amount <= 0 {
            Some(Error::InvalidReward)
        } else if self.is_goal_complete(user, goal_id) {
            Some(Error::AlreadyCompleted)
        } else {
            None
        }
    }

    /// Completing a goal, where the minting port accepts the reward: the
    /// pair of user and goal is recorded.
    pub open spec fn complete_goal(
        self,
        invoker: Seq<char>,
        user: Seq<char>,
        goal_id: u32,
        reward_amount: int,
    ) -> Result<CompletionState, Error> {
        match self.completion_refused(invoker, user, goal_id, reward_amount) {
            Some(e) => Err(e),
            None => Ok(CompletionState { completed: self.completed.insert((user, goal_id)) }),
        }
    }
}

/// Whether entry `i` of `done` is the pair of `user` and `goal_id`.
pub open spec fn entry_is(done: Seq<(Address, u32)>, i: int, user: Seq<char>, goal_id: u32) -> bool {
    0 <= i < done.len() && done[i].0@ == user && done[i].1 == goal_id
}

/// The record of completed goals.
pub struct PersonalGoals {
    done: Vec<(Address, u32)>,
}

impl View for PersonalGoals {
    type V = CompletionState;

    closed spec fn view(&self) -> CompletionState {
        CompletionState {
            completed: Set::new(
                |pair: (Seq<char>, u32)| exists|i: int| entry_is(self.done@, i, pair.0, pair.1),
            ),
        }
    }
}

impl PersonalGoals {
    /// A record with nothing completed.
    pub fn new() -> (goals: PersonalGoals)
        ensures
            goals@ == CompletionState::empty(),
    {
        let goals = PersonalGoals { done: Vec::new() };
        assert(goals@.completed =~= Set::<(Seq<char>, u32)>::empty());
        goals
    }

    /// Whether `user` has completed goal `goal_id`.
    pub fn is_goal_complete(&self, user: &Address, goal_id: u32) -> (r: bool)
        ensures
            r == self@.is_goal_complete(user@, goal_id),
    {
        let mut i: usize = 0;
        while i < self.done.len()
            invariant
                i <= self.done@.len(),
                forall|j: int| 0 <= j < i ==> !entry_is(self.done@, j, user@, goal_id),
            decreases self.done@.len() - i,
        {
            if self.done[i].1 == goal_id && self.done[i].0 == *user {
                proof {
                    let pair = (user@, goal_id);
                    assert(entry_is(self.done@, i as int, pair.0, pair.1));
                }
                return true;
            }
            i += 1;
        }
        proof {
            let pair = (user@, goal_id);
            assert(forall|j: int| !entry_is(self.done@, j, pair.0, pair.1));
        }
        false
    }

    /// Records that `user` has completed goal `goal_id`, on behalf of
    /// `invoker`, and has `reward_amount` minted to `user` through `token`.
    ///
    /// Refused with `Unauthorized` unless `invoker` is `user`, then with
    /// `InvalidReward` unless the reward is positive, then with
    /// `AlreadyCompleted` where this user has completed this goal before. A
    /// refusal changes neither the record nor the ledger. Otherwise the
    /// port is asked to mint the reward to the user; when it accepts, the
    /// completion is recorded; when it refuses, nothing is recorded and the
    /// result is the refusal.
    pub fn complete_goal<T: TokenContract>(
        &mut self,
        token: &mut T,
        invoker: &Address,
        user: &Address,
        goal_id: u32,
        reward_amount: i128,
    ) -> (r: Result<(), Error>)
        requires
            old(token).wf(),
        ensures
            final(token).wf(),
            match old(self)@.complete_goal(invoker@, user@, goal_id, reward_amount as int) {
                Err(e) => {
                    &&& r == Err::<(), Error>(e)
                    &&& final(self)@ == old(self)@
                    &&& *final(token) == *old(token)
                },
                Ok(next) => match T::mint_spec(old(token)@, user@, reward_amount as int) {
                    Ok(paid) => {
                        &&& r is Ok
                        &&& final(self)@ == next
                        &&& final(token)@ == paid
                    },
                    Err(e) => {
                        &&& r == Err::<(), Error>(e)
                        &&& final(self)@ == old(self)@
                        &&& final(token)@ == old(token)@
                    },
                },
            },
    {
        if *invoker != *user {
            return Err(Error::Unauthorized);
        }
        if reward_amount <= 0 {
            return Err(Error::InvalidReward);
        }
        if self.is_goal_complete(user, goal_id) {
            return Err(Error::AlreadyCompleted);
        }
        match token.mint(user, reward_amount) {
            Ok(()) => {},
            Err(e) => {
                return Err(e);
            },
        }
        let ghost before = self.done@;
        let ghost recorded = self@.completed;
        self.done.push((user.clone(), goal_id));
        proof {
            let after = self.done@;
            assert forall|pair: (Seq<char>, u32)|
                self@.completed.contains(pair) <==> #[trigger] recorded.insert(
                    (user@, goal_id),
                ).contains(pair) by {
                if self@.completed.contains(pair) {
                    let i = choose|i: int| entry_is(after, i, pair.0, pair.1);
                    if i < before.len() {
                        assert(entry_is(before, i, pair.0, pair.1));
                    }
                }
                if recorded.contains(pair) {
                    let i = choose|i: int| entry_is(before, i, pair.0, pair.1);
                    assert(entry_is(after, i, pair.0, pair.1));
                }
                if pair == (user@, goal_id) {
                    assert(entry_is(after, before.len() as int, pair.0, pair.1));
                }
            }
            assert(self@.completed =~= recorded.insert((user@, goal_id)));
        }
        Ok(())
    }
}

/// A goal that a user has completed is refused a second completion by that
/// user, whatever the reward: it is paid once. Other users, and other goals
/// of this user, are not touched by a completion.
pub proof fn law_complete_once(
    state: CompletionState,
    user: Seq<char>,
    goal_id: u32,
    reward_amount: int,
    invoker: Seq<char>,
    again: int,
)
    requires
        state.complete_goal(user, user, goal_id, reward_amount) is Ok,
    ensures
        ({
            let next = state.complete_goal(user, user, goal_id, reward_amount)->Ok_0;
            &&& next.is_goal_complete(user, goal_id)
            &&& next.complete_goal(invoker, user, goal_id, again) is Err
            &&& invoker == user && again > 0 ==> next.complete_goal(invoker, user, goal_id, again)
                == Err::<CompletionState, Error>(Error::AlreadyCompleted)
            &&& forall|other: Seq<char>, id: u32|
                (other != user || id != goal_id) ==> next.is_goal_complete(other, id)
                    == state.is_goal_complete(other, id)
        }),
{
}

} // verus!
