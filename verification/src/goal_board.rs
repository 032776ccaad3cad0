//! Goals that anybody may open and any one approver may approve: ids are
//! given out in sequence, and an approved goal pays a fixed reward to the
//! identity that created it.

use crate::address::Address;
use crate::error::Error;
use crate::goals_vault::TokenContract;
use vstd::prelude::*;

verus! {

/// A goal on the board: who created it, its title, its target and current
/// amounts, and whether it has been approved. No operation moves the
/// current amount.
#[derive(Debug)]
pub struct OpenGoal {
    pub creator: Address,
    pub title: String,
    pub target_amount: i128,
    pub current_amount: i128,
    pub approved: bool,
}

/// What a goal on the board says.
pub struct OpenGoalView {
    pub creator: Seq<char>,
    pub title: Seq<char>,
    pub target_amount: int,
    pub current_amount: int,
    pub approved: bool,
}

impl View for OpenGoal {
    type V = OpenGoalView;

    open spec fn view(&self) -> OpenGoalView {
        OpenGoalView {
            creator: self.creator@,
            title: self.title@,
            target_amount: self.target_amount as int,
            current_amount: self.current_amount as int,
            approved: self.approved,
        }
    }
}

impl Clone for OpenGoal {
    fn clone(&self) -> (goal: OpenGoal)
        ensures
            goal@ == self@,
    {
        OpenGoal {
            creator: self.creator.clone(),
            title: self.title.clone(),
            target_amount: self.target_amount,
            current_amount: self.current_amount,
            approved: self.approved,
        }
    }
}

/// What the board holds: the reward that every approved goal pays, and the
/// goals in the order of their creation. The id of a goal is its place in
/// that order, counted from zero.
pub struct BoardState {
    pub reward: int,
    pub goals: Seq<OpenGoalView>,
}

impl BoardState {
    /// The reward is positive, and the ids are numbers of 32 bits.
    pub open spec fn valid(self) -> bool {
        self.reward > 0 && self.goals.len() <= u32::MAX + 1
    }

    /// The goal with id `goal_id`, if there is one.
    pub open spec fn get_goal(self, goal_id: u32) -> Option<OpenGoalView> {
        if goal_id < self.goals.len() {
            Some(self.goals[goal_id as int])
        } else {
            None
        }
    }

    /// Opening a goal: only the creator may, and an id must be left. The
    /// goal gets the next id, a current amount of zero and no approval.
    pub open spec fn create_goal(
        self,
        invoker: Seq<char>,
        creator: Seq<char>,
        title: Seq<char>,
        target_amount: int,
    ) -> Result<(BoardState, u32), Error> {
        if invoker != creator {
            Err(Error::Unauthorized)
        } else if self.goals.len() > u32::MAX {
            Err(Error::Overflow)
        } else {
            Ok(
                (
                    BoardState {
                        goals: self.goals.push(
                            OpenGoalView {
                                creator,
                                title,
                                target_amount,
                                current_amount: 0,
                                approved: false,
                            },
                        ),
                        ..self
                    },
                    self.goals.len() as u32,
                ),
            )
        }
    }

    /// Why an approval is refused, if it is: the invoker must be the
    /// approver, the goal must exist and must not be approved yet.
    pub open spec fn approval_refused(self, invoker: Seq<char>, approver: Seq<char>, goal_id: u32)
        -> Option<Error> {
        if invoker != approver {
            Some(Error::Unauthorized)
        } else if goal_id >= self.goals.len() {
            Some(Error::GoalNotFound)
        } else if self.goals[goal_id as int].approved {
            Some(Error::AlreadyApproved)
        } else {
            None
        }
    }

    /// Approving a goal, where the minting port accepts the reward: the goal
    /// is marked as approved.
    pub open spec fn approve_goal(self, invoker: Seq<char>, approver: Seq<char>, goal_id: u32)
        -> Result<BoardState, Error> {
        match self.approval_refused(invoker, approver, goal_id) {
            Some(e) => Err(e),
            None => Ok(
                BoardState {
                    goals: self.goals.update(
                        goal_id as int,
                        OpenGoalView { approved: true, ..self.goals[goal_id as int] },
                    ),
                    ..self
                },
            ),
        }
    }
}

/// The board of open goals.
pub struct GoalBoard {
    reward: i128,
    goals: Vec<OpenGoal>,
}

impl View for GoalBoard {
    type V = BoardState;

    closed spec fn view(&self) -> BoardState {
        BoardState { reward: self.reward as int, goals: self.goals@.map_values(|g: OpenGoal| g@) }
    }
}

impl GoalBoard {
    /// The board is one that the operations below have built.
    pub open spec fn wf(&self) -> bool {
        self@.valid()
    }

    /// An empty board whose goals pay `reward` each. A reward that is not
    /// positive is refused.
    pub fn new(reward: i128) -> (r: Result<GoalBoard, Error>)
        ensures
            match r {
                Ok(board) => reward > 0 && board.wf() && board@ == (BoardState {
                    reward: reward as int,
                    goals: Seq::empty(),
                }),
                Err(e) => reward <= 0 && e == Error::InvalidReward,
            },
    {
        if reward <= 0 {
            return Err(Error::InvalidReward);
        }
        let board = GoalBoard { reward, goals: Vec::new() };
        assert(board@.goals =~= Seq::<OpenGoalView>::empty());
        Ok(board)
    }

    /// The reward that an approved goal pays.
    pub fn reward(&self) -> (r: i128)
        ensures
            r == self@.reward,
    {
        self.reward
    }

    /// Opens a goal for `creator` on behalf of `invoker` and gives its id.
    ///
    /// Refused with `Unauthorized` unless `invoker` is `creator`, and with
    /// `Overflow` when all ids are given out. Otherwise the goal gets the id
    /// that follows the last one given, starting at zero. A refusal changes
    /// nothing.
    pub fn create_goal(
        &mut self,
        invoker: &Address,
        creator: Address,
        title: String,
        target_amount: i128,
    ) -> (r: Result<u32, Error>)
        requires
            old(self).wf(),
        ensures
            final(self).wf(),
            match old(self)@.create_goal(invoker@, creator@, title@, target_amount as int) {
                Ok((next, id)) => r == Ok::<u32, Error>(id) && final(self)@ == next,
                Err(e) => r == Err::<u32, Error>(e) && final(self)@ == old(self)@,
            },
    {
        if *invoker != creator {
            return Err(Error::Unauthorized);
        }
        let count = self.goals.len();
        if count > u32::MAX as usize {
            return Err(Error::Overflow);
        }
        let ghost before = self@;
        let goal = OpenGoal { creator, title, target_amount, current_amount: 0, approved: false };
        self.goals.push(goal);
        proof {
            let next = before.create_goal(invoker@, creator@, title@, target_amount as int)->Ok_0.0;
            assert(self@.goals =~= next.goals);
        }
        Ok(count as u32)
    }

    /// Approves goal `goal_id` as `approver`, on behalf of `invoker`, and
    /// has the board's reward minted to the goal's creator through `token`.
    ///
    /// Refused with `Unauthorized` unless `invoker` is `approver`, then with
    /// `GoalNotFound` for an id not given out, then with `AlreadyApproved`
    /// for an approved goal. A refusal changes neither the board nor the
    /// ledger. Otherwise the port is asked to mint the reward to the
    /// creator; when it accepts, the goal is marked as approved; when it
    /// refuses, nothing is marked and the result is the refusal.
    pub fn approve_goal<T: TokenContract>(
        &mut self,
        token: &mut T,
        invoker: &Address,
        approver: &Address,
        goal_id: u32,
    ) -> (r: Result<(), Error>)
        requires
            old(self).wf(),
            old(token).wf(),
        ensures
            final(self).wf(),
            final(token).wf(),
            match old(self)@.approve_goal(invoker@, approver@, goal_id) {
                Err(e) => {
                    &&& r == Err::<(), Error>(e)
                    &&& final(self)@ == old(self)@
                    &&& *final(token) == *old(token)
                },
                Ok(next) => match T::mint_spec(
                    old(token)@,
                    old(self)@.goals[goal_id as int].creator,
                    old(self)@.reward,
                ) {
                    Ok(paid) => {
                        &&& r is Ok
                        &&& final(self)@ == next
                        &&& final(token)@ == paid
                    },
                    Err(e) => {
                        &&& r == Err::<(), Error>(e)
                        &&& final(self)@ == old(self)@
                        &&& final(token)@ == old(token)@
                    },
                },
            },
    {
        if *invoker != *approver {
            return Err(Error::Unauthorized);
        }
        let place = goal_id as usize;
        if place >= self.goals.len() {
            return Err(Error::GoalNotFound);
        }
        if self.goals[place].approved {
            return Err(Error::AlreadyApproved);
        }
        let mut goal = self.goals[place].clone();
        match token.mint(&goal.creator, self.reward) {
            Ok(()) => {},
            Err(e) => {
                return Err(e);
            },
        }
        goal.approved = true;
        let ghost before = self@;
        self.goals.set(place, goal);
        proof {
            let next = before.approve_goal(invoker@, approver@, goal_id)->Ok_0;
            assert(self@.goals =~= next.goals);
        }
        Ok(())
    }

    /// The goal with id `goal_id`, if that id has been given out.
    pub fn get_goal(&self, goal_id: u32) -> (r: Option<OpenGoal>)
        ensures
            match r {
                Some(goal) => self@.get_goal(goal_id) == Some(goal@),
                None => self@.get_goal(goal_id) is None,
            },
    {
        let place = goal_id as usize;
        if place < self.goals.len() {
            Some(self.goals[place].clone())
        } else {
            None
        }
    }
}

/// Ids are given out in sequence from zero and never again: the id of a new
/// goal is the number of goals opened before it, the goals opened before
/// keep their ids and what they say, and the next goal gets the next id.
pub proof fn law_ids_in_sequence(
    state: BoardState,
    creator: Seq<char>,
    title: Seq<char>,
    target_amount: int,
)
    requires
        state.valid(),
        state.create_goal(creator, creator, title, target_amount) is Ok,
    ensures
        ({
            let (next, id) = state.create_goal(creator, creator, title, target_amount)->Ok_0;
            &&& next.valid()
            &&& id == state.goals.len()
            &&& state.get_goal(id) is None
            &&& next.get_goal(id) is Some
            &&& forall|earlier: u32| earlier < id ==> next.get_goal(earlier) == state.get_goal(earlier)
            &&& forall|c: Seq<char>, t: Seq<char>, a: int| #[trigger]
                next.create_goal(c, c, t, a) is Ok ==> next.create_goal(c, c, t, a)->Ok_0.1 == id
                    + 1
        }),
{
}

/// An approved goal is refused every further approval and stays approved:
/// its reward is minted once.
pub proof fn law_approved_once(
    state: BoardState,
    approver: Seq<char>,
    goal_id: u32,
    invoker: Seq<char>,
    again: Seq<char>,
)
    requires
        state.approve_goal(approver, approver, goal_id) is Ok,
    ensures
        ({
            let next = state.approve_goal(approver, approver, goal_id)->Ok_0;
            &&& next.get_goal(goal_id) is Some
            &&& next.get_goal(goal_id)->Some_0.approved
            &&& next.approve_goal(invoker, again, goal_id) is Err
            &&& invoker == again ==> next.approve_goal(invoker, again, goal_id) == Err::<
                BoardState,
                Error,
            >(Error::AlreadyApproved)
            &&& next.goals.len() == state.goals.len()
            &&& forall|other: u32| other != goal_id ==> next.get_goal(other) == state.get_goal(other)
        }),
{
}

} // verus!
