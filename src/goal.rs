use vstd::prelude::*;

use crate::account::copy_account;
use crate::error::Error;
use crate::interest::{accrue, fits_i128, interest_fits, interest_value};

verus! {

/// Shortest lock a goal may have: one day, in seconds.
pub const MIN_LOCK_DURATION: u64 = 86400;

/// Longest lock a goal may have: ten years, in seconds.
pub const MAX_LOCK_DURATION: u64 = 315360000;

/// Highest annual interest rate a goal may carry, in basis points (50%).
pub const MAX_INTEREST_RATE: u32 = 5000;

/// One time-locked savings position.
pub struct SavingsGoal {
    /// Identity of the depositor.
    pub owner: Vec<u8>,
    /// Amount deposited, in the token's smallest unit.
    pub principal: i128,
    /// Annual interest rate in basis points.
    pub interest_rate: u32,
    /// Time of the deposit, in seconds since the epoch.
    pub start_time: u64,
    /// Length of the lock, in seconds.
    pub lock_duration: u64,
    /// Earliest time of an unpenalized withdrawal.
    pub unlock_time: u64,
    /// Interest compounded into the goal so far.
    pub accrued_interest: i128,
    /// Time up to which interest has been compounded.
    pub last_compound_time: u64,
    /// False once the goal has been paid out; never true again.
    pub is_active: bool,
}

impl SavingsGoal {
    /// The record invariant of a goal.
    pub open spec fn wf(&self) -> bool {
        &&& self.principal > 0
        &&& self.accrued_interest >= 0
        &&& self.interest_rate <= MAX_INTEREST_RATE
        &&& MIN_LOCK_DURATION <= self.lock_duration <= MAX_LOCK_DURATION
        &&& self.unlock_time == self.start_time + self.lock_duration
        &&& self.start_time <= self.last_compound_time
    }

    /// Whether the record invariant holds.
    pub fn is_wf(&self) -> (r: bool)
        ensures
            r == self.wf(),
    {
        let unlock_ok = match self.start_time.checked_add(self.lock_duration) {
            Some(t) => t == self.unlock_time,
            None => false,
        };
        self.principal > 0 && self.accrued_interest >= 0 && self.interest_rate <= MAX_INTEREST_RATE
            && MIN_LOCK_DURATION <= self.lock_duration && self.lock_duration <= MAX_LOCK_DURATION
            && unlock_ok && self.start_time <= self.last_compound_time
    }

    /// Principal plus accrued interest.
    pub open spec fn balance(&self) -> int {
        self.principal + self.accrued_interest
    }

    /// Interest earned since the last compounding, at time `now`.
    pub open spec fn pending_interest(&self, now: u64) -> int {
        interest_value(self.balance(), self.interest_rate as int, now - self.last_compound_time)
    }

    /// Why compounding this goal at `now` fails, if it does.
    pub open spec fn compound_error(&self, now: u64) -> Option<Error> {
        if !self.is_active {
            Some(Error::GoalInactive)
        } else if now < self.last_compound_time {
            Some(Error::TimeError)
        } else if now == self.last_compound_time {
            None
        } else if !fits_i128(self.balance()) {
            Some(Error::Overflow)
        } else if !interest_fits(
            self.balance(),
            self.interest_rate as int,
            now - self.last_compound_time,
        ) {
            Some(Error::Overflow)
        } else if !fits_i128(self.accrued_interest + self.pending_interest(now)) {
            Some(Error::Overflow)
        } else {
            None
        }
    }

    /// The goal after compounding at `now`: pending interest is added and the
    /// watermark moves to `now`. With no time elapsed nothing changes.
    pub open spec fn compounded(self, now: u64) -> SavingsGoal {
        if now == self.last_compound_time {
            self
        } else {
            SavingsGoal {
                accrued_interest: (self.accrued_interest + self.pending_interest(now)) as i128,
                last_compound_time: now,
                ..self
            }
        }
    }

    /// The goal marked as paid out.
    pub open spec fn closed(self) -> SavingsGoal {
        SavingsGoal { is_active: false, ..self }
    }

    /// Whether `c` holds the same record as this goal.
    pub open spec fn same_record(&self, c: SavingsGoal) -> bool {
        &&& c.owner@ == self.owner@
        &&& c.principal == self.principal
        &&& c.interest_rate == self.interest_rate
        &&& c.start_time == self.start_time
        &&& c.lock_duration == self.lock_duration
        &&& c.unlock_time == self.unlock_time
        &&& c.accrued_interest == self.accrued_interest
        &&& c.last_compound_time == self.last_compound_time
        &&& c.is_active == self.is_active
    }

    /// A copy of this goal.
    pub fn copy(&self) -> (r: SavingsGoal)
        ensures
            self.same_record(r),
    {
        SavingsGoal {
            owner: copy_account(&self.owner),
            principal: self.principal,
            interest_rate: self.interest_rate,
            start_time: self.start_time,
            lock_duration: self.lock_duration,
            unlock_time: self.unlock_time,
            accrued_interest: self.accrued_interest,
            last_compound_time: self.last_compound_time,
            is_active: self.is_active,
        }
    }

    /// The accrued interest and watermark after compounding at `now`.
    pub fn compound_step(&self, now: u64) -> (r: Result<(i128, u64), Error>)
        ensures
            match self.compound_error(now) {
                Some(e) => r == Err::<(i128, u64), Error>(e),
                None => r == Ok::<(i128, u64), Error>(
                    (self.compounded(now).accrued_interest, self.compounded(now).last_compound_time),
                ),
            },
    {
        if !self.is_active {
            return Err(Error::GoalInactive);
        }
        let elapsed = match now.checked_sub(self.last_compound_time) {
            Some(e) => e,
            None => return Err(Error::TimeError),
        };
        if elapsed == 0 {
            return Ok((self.accrued_interest, self.last_compound_time));
        }
        let balance = match self.principal.checked_add(self.accrued_interest) {
            Some(b) => b,
            None => return Err(Error::Overflow),
        };
        let interest = match accrue(balance, self.interest_rate, elapsed) {
            Ok(i) => i,
            Err(e) => return Err(e),
        };
        let accrued = match self.accrued_interest.checked_add(interest) {
            Some(a) => a,
            None => return Err(Error::Overflow),
        };
        Ok((accrued, now))
    }
}

/// Compounding keeps a goal well formed, its owner and its status, and never
/// lowers its accrued interest.
pub proof fn lemma_compounded_wf(g: SavingsGoal, now: u64)
    requires
        g.wf(),
        g.compound_error(now) is None,
    ensures
        g.compounded(now).wf(),
        g.compounded(now).owner == g.owner,
        g.compounded(now).is_active == g.is_active,
        g.compounded(now).accrued_interest >= g.accrued_interest,
{
    if now != g.last_compound_time {
        crate::interest::lemma_accrue_monotonic(g.balance() as i128, g.interest_rate, 0, (now - g.last_compound_time) as u64);
        assert(interest_value(g.balance(), g.interest_rate as int, 0) == 0);
    }
}

/// Compounding twice at the same instant is the same as compounding once: the
/// second call succeeds and changes nothing.
pub proof fn lemma_compound_idempotent(g: SavingsGoal, now: u64)
    requires
        g.compound_error(now) is None,
    ensures
        g.compounded(now).compound_error(now) is None,
        g.compounded(now).compounded(now) == g.compounded(now),
{
}

} // verus!
