//! The named conditions under which an operation is refused.

use vstd::prelude::*;

verus! {

/// Why an operation was refused. A refused operation changes nothing.
#[derive(Clone, Copy, Debug, PartialEq, Eq, Structural)]
pub enum Error {
    /// The one-shot set-up has already been done.
    AlreadyInitialized,
    /// The set-up that the operation depends on has not been done.
    NotInitialized,
    /// The caller already has a recorded partner and may not take another.
    AlreadyLinked,
    /// The invoker does not control the identity that the operation acts for.
    Unauthorized,
    /// A token amount that is not positive.
    InvalidAmount,
    /// A reward that is not positive.
    InvalidReward,
    /// The debited balance is smaller than the amount.
    InsufficientBalance,
    /// A balance, a total supply or an id would leave the range of its type.
    Overflow,
    /// No goal has the given id.
    GoalNotFound,
    /// A goal with the given id exists already.
    GoalAlreadyExists,
    /// The two partners of a goal are the same identity.
    InvalidPartners,
    /// The approver is neither partner of the goal.
    NotAParticipant,
    /// The goal's unlock time has not come yet.
    TimeLocked,
    /// The goal has been approved and paid out already.
    AlreadyApproved,
    /// The goal's rewards have been minted already.
    AlreadyMinted,
    /// The user has completed this goal already.
    AlreadyCompleted,
}

impl Error {
    /// The words that describe the condition.
    pub open spec fn text(self) -> Seq<char> {
        match self {
            Error::AlreadyInitialized => "already initialized"@,
            Error::NotInitialized => "token contract not set"@,
            Error::AlreadyLinked => "partner already linked"@,
            Error::Unauthorized => "unauthorized"@,
            Error::InvalidAmount => "amount must be positive"@,
            Error::InvalidReward => "reward must be positive"@,
            Error::InsufficientBalance => "insufficient balance"@,
            Error::Overflow => "value out of range"@,
            Error::GoalNotFound => "goal not found"@,
            Error::GoalAlreadyExists => "goal already exists"@,
            Error::InvalidPartners => "partners must be different"@,
            Error::NotAParticipant => "approver is not a goal partner"@,
            Error::TimeLocked => "goal is still time-locked"@,
            Error::AlreadyApproved => "goal already approved"@,
            Error::AlreadyMinted => "goal already completed"@,
            Error::AlreadyCompleted => "goal already completed by this user"@,
        }
    }

    /// The words that describe the condition, for a caller that reports it.
    pub fn message(&self) -> (s: &'static str)
        ensures
            s@ == self.text(),
    {
        match self {
            Error::AlreadyInitialized => "already initialized",
            Error::NotInitialized => "token contract not set",
            Error::AlreadyLinked => "partner already linked",
            Error::Unauthorized => "unauthorized",
            Error::InvalidAmount => "amount must be positive",
            Error::InvalidReward => "reward must be positive",
            Error::InsufficientBalance => "insufficient balance",
            Error::Overflow => "value out of range",
            Error::GoalNotFound => "goal not found",
            Error::GoalAlreadyExists => "goal already exists",
            Error::InvalidPartners => "partners must be different",
            Error::NotAParticipant => "approver is not a goal partner",
            Error::TimeLocked => "goal is still time-locked",
            Error::AlreadyApproved => "goal already approved",
            Error::AlreadyMinted => "goal already completed",
            Error::AlreadyCompleted => "goal already completed by this user",
        }
    }
}

} // verus!
