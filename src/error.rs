use vstd::prelude::*;

verus! {

/// Every way an operation on savings goals can fail.
#[derive(Copy, Clone, Debug, PartialEq, Eq, Structural)]
pub enum Error {
    AlreadyInitialized,
    NotInitialized,
    InvalidAmount,
    InvalidDuration,
    RateTooHigh,
    PenaltyTooHigh,
    Overflow,
    GoalNotFound,
    GoalInactive,
    StillLocked,
    AlreadyWithdrawn,
    Unauthorized,
    TimeError,
    DivisionError,
    Underflow,
    GoalOverflow,
}

} // verus!
