use vstd::prelude::*;

use crate::account::{copy_account, same_account};
use crate::error::Error;
use crate::goal::{
    lemma_compounded_wf, SavingsGoal, MAX_INTEREST_RATE, MAX_LOCK_DURATION, MIN_LOCK_DURATION,
};
use crate::interest::{accrue, fits_i128, interest_fits, penalty, penalty_value};

verus! {

/// Highest emergency penalty the administrator may set, in basis points (50%).
pub const MAX_PENALTY: u32 = 5000;

/// Penalty applied when none has been configured, in basis points (10%).
pub const DEFAULT_PENALTY: u32 = 1000;

/// Settings fixed by initialization.
pub struct Config {
    /// The token that goals are saved in.
    pub token: Vec<u8>,
    /// The administrator, who receives penalties and may change the penalty rate.
    pub admin: Vec<u8>,
    /// Emergency-withdrawal penalty in basis points.
    pub emergency_penalty: u32,
}

/// A movement of tokens into or out of the contract's custody, to be carried out
/// after the operation that asked for it has recorded its effect.
pub enum Transfer {
    /// From the account `from` into custody.
    Deposit { from: Vec<u8>, amount: i128 },
    /// From custody to the account `to`.
    Payout { to: Vec<u8>, amount: i128 },
}

/// `t` is a deposit of `amount` from the account `from`.
pub open spec fn is_deposit(t: Transfer, from: Seq<u8>, amount: int) -> bool {
    match t {
        Transfer::Deposit { from: f, amount: a } => f@ == from && a == amount,
        _ => false,
    }
}

/// `t` is a payout of `amount` to the account `to`.
pub open spec fn is_payout(t: Transfer, to: Seq<u8>, amount: int) -> bool {
    match t {
        Transfer::Payout { to: d, amount: a } => d@ == to && a == amount,
        _ => false,
    }
}

/// The savings contract: configuration, every goal ever created (a goal's id is
/// its index, assigned from a single counter shared by all owners), and the
/// transfers that operations have asked for and that are yet to be carried out.
pub struct TimeLockedSavings {
    pub config: Option<Config>,
    pub goals: Vec<SavingsGoal>,
    pub transfers: Vec<Transfer>,
}

/// How many of `goals` belong to `owner`.
pub open spec fn owned_count(goals: Seq<SavingsGoal>, owner: Seq<u8>) -> nat
    decreases goals.len(),
{
    if goals.len() == 0 {
        0
    } else {
        owned_count(goals.drop_last(), owner) + if goals.last().owner@ == owner {
            1nat
        } else {
            0nat
        }
    }
}

/// Why reading the current balance of `g` at `now` fails, if it does.
pub open spec fn current_balance_error(g: SavingsGoal, now: u64) -> Option<Error> {
    if !g.is_active {
        None
    } else if now < g.last_compound_time {
        Some(Error::TimeError)
    } else if !fits_i128(g.balance()) {
        Some(Error::Overflow)
    } else if now == g.last_compound_time {
        None
    } else if !interest_fits(g.balance(), g.interest_rate as int, now - g.last_compound_time) {
        Some(Error::Overflow)
    } else if !fits_i128(g.balance() + g.pending_interest(now)) {
        Some(Error::Overflow)
    } else {
        None
    }
}

/// The current balance of `g` at `now`: zero once paid out, else principal,
/// accrued interest and the interest pending since the last compounding.
pub open spec fn current_balance_value(g: SavingsGoal, now: u64) -> int {
    if !g.is_active {
        0
    } else {
        g.balance() + g.pending_interest(now)
    }
}

impl TimeLockedSavings {
    /// The state invariant: ids fit the counter, goals exist only once configured,
    /// the penalty is within bounds, and every goal is well formed.
    pub open spec fn wf(&self) -> bool {
        &&& self.goals@.len() <= u64::MAX
        &&& self.goals@.len() > 0 ==> self.config is Some
        &&& self.config matches Some(c) ==> c.emergency_penalty <= MAX_PENALTY
        &&& forall|i: int| 0 <= i < self.goals@.len() ==> (#[trigger] self.goals@[i]).wf()
    }

    /// Whether the state invariant holds, for a state assembled from outside.
    pub fn is_wf(&self) -> (r: bool)
        ensures
            r == self.wf(),
    {
        if self.goals.len() > 0 && self.config.is_none() {
            return false;
        }
        match &self.config {
            Some(c) => {
                if c.emergency_penalty > MAX_PENALTY {
                    return false;
                }
            },
            None => {},
        }
        let mut i: usize = 0;
        while i < self.goals.len()
            invariant
                0 <= i <= self.goals@.len(),
                forall|j: int| 0 <= j < i ==> (#[trigger] self.goals@[j]).wf(),
            decreases self.goals@.len() - i,
        {
            if !self.goals[i].is_wf() {
                return false;
            }
            i = i + 1;
        }
        true
    }

    /// The goal `id` of `owner`, if there is one.
    pub open spec fn goal_at(&self, owner: Seq<u8>, id: u64) -> Option<SavingsGoal> {
        if id < self.goals@.len() && self.goals@[id as int].owner@ == owner {
            Some(self.goals@[id as int])
        } else {
            None
        }
    }

    /// The next goal id to be assigned.
    pub open spec fn goal_counter(&self) -> int {
        self.goals@.len() as int
    }

    /// The penalty rate emergency withdrawals pay.
    pub open spec fn penalty_rate(&self) -> u32 {
        match self.config {
            Some(c) => c.emergency_penalty,
            None => DEFAULT_PENALTY,
        }
    }

    /// Why creating a goal fails, if it does.
    pub open spec fn create_error(&self, amount: i128, lock_duration: u64, interest_rate: u32, now: u64) -> Option<Error> {
        if amount <= 0 {
            Some(Error::InvalidAmount)
        } else if lock_duration < MIN_LOCK_DURATION || lock_duration > MAX_LOCK_DURATION {
            Some(Error::InvalidDuration)
        } else if interest_rate > MAX_INTEREST_RATE {
            Some(Error::RateTooHigh)
        } else if now + lock_duration > u64::MAX {
            Some(Error::Overflow)
        } else if self.config is None {
            Some(Error::NotInitialized)
        } else if self.goal_counter() == u64::MAX {
            Some(Error::GoalOverflow)
        } else {
            None
        }
    }

    /// A contract with nothing configured and no goals.
    pub fn new() -> (r: TimeLockedSavings)
        ensures
            r.wf(),
            r.config is None,
            r.goals@.len() == 0,
            r.transfers@.len() == 0,
    {
        TimeLockedSavings { config: None, goals: Vec::new(), transfers: Vec::new() }
    }

    /// Sets the token, the administrator and the emergency penalty, once.
    pub fn initialize(&mut self, token: Vec<u8>, admin: Vec<u8>, emergency_penalty: u32) -> (r: Result<(), Error>)
        requires
            old(self).wf(),
        ensures
            final(self).wf(),
            old(self).config is Some ==> r == Err::<(), Error>(Error::AlreadyInitialized),
            old(self).config is None && emergency_penalty > MAX_PENALTY ==> r == Err::<(), Error>(
                Error::PenaltyTooHigh,
            ),
            old(self).config is None && emergency_penalty <= MAX_PENALTY ==> r is Ok,
            r is Err ==> *final(self) == *old(self),
            r is Ok ==> final(self).config == Some(
                Config { token, admin, emergency_penalty },
            ),
            final(self).goals == old(self).goals,
            final(self).transfers == old(self).transfers,
    {
        if self.config.is_some() {
            return Err(Error::AlreadyInitialized);
        }
        if emergency_penalty > MAX_PENALTY {
            return Err(Error::PenaltyTooHigh);
        }
        self.config = Some(Config { token, admin, emergency_penalty });
        Ok(())
    }

    /// Opens a goal for `owner` holding `amount`, locked for `lock_duration`
    /// seconds from `now`, at `interest_rate` basis points a year, and asks for
    /// the deposit of `amount` from `owner`. Returns the new goal's id.
    pub fn create_goal(&mut self, owner: Vec<u8>, amount: i128, lock_duration: u64, interest_rate: u32, now: u64) -> (r: Result<u64, Error>)
        requires
            old(self).wf(),
        ensures
            final(self).wf(),
            amount <= 0 ==> r == Err::<u64, Error>(Error::InvalidAmount),
            match old(self).create_error(amount, lock_duration, interest_rate, now) {
                Some(e) => r == Err::<u64, Error>(e) && *final(self) == *old(self),
                None => {
                    &&& r == Ok::<u64, Error>(old(self).goal_counter() as u64)
                    &&& final(self).goals@ == old(self).goals@.push(
                        SavingsGoal {
                            owner,
                            principal: amount,
                            interest_rate,
                            start_time: now,
                            lock_duration,
                            unlock_time: (now + lock_duration) as u64,
                            accrued_interest: 0,
                            last_compound_time: now,
                            is_active: true,
                        },
                    )
                    &&& final(self).transfers@.len() == old(self).transfers@.len() + 1
                    &&& final(self).transfers@.take(old(self).transfers@.len() as int)
                        == old(self).transfers@
                    &&& is_deposit(final(self).transfers@.last(), owner@, amount as int)
                    &&& final(self).config == old(self).config
                },
            },
    {
        if amount <= 0 {
            return Err(Error::InvalidAmount);
        }
        if lock_duration < MIN_LOCK_DURATION || lock_duration > MAX_LOCK_DURATION {
            return Err(Error::InvalidDuration);
        }
        if interest_rate > MAX_INTEREST_RATE {
            return Err(Error::RateTooHigh);
        }
        let unlock_time = match now.checked_add(lock_duration) {
            Some(t) => t,
            None => return Err(Error::Overflow),
        };
        if self.config.is_none() {
            return Err(Error::NotInitialized);
        }
        let goal_id = self.goals.len() as u64;
        if goal_id == u64::MAX {
            return Err(Error::GoalOverflow);
        }
        let from = copy_account(&owner);
        let goal = SavingsGoal {
            owner,
            principal: amount,
            interest_rate,
            start_time: now,
            lock_duration,
            unlock_time,
            accrued_interest: 0,
            last_compound_time: now,
            is_active: true,
        };
        self.transfers.push(Transfer::Deposit { from, amount });
        self.goals.push(goal);
        proof {
            assert(self.transfers@.take(old(self).transfers@.len() as int) =~= old(self).transfers@);
            assert forall|i: int| 0 <= i < self.goals@.len() implies (#[trigger] self.goals@[i]).wf() by {
                if i < old(self).goals@.len() {
                    assert(self.goals@[i] == old(self).goals@[i]);
                }
            }
        }
        Ok(goal_id)
    }

    /// Why a withdrawal of goal `id` of `owner` at `now` fails, if it does.
    pub open spec fn withdraw_error(&self, owner: Seq<u8>, id: u64, now: u64) -> Option<Error> {
        match self.goal_at(owner, id) {
            None => Some(Error::GoalNotFound),
            Some(g) => if !g.is_active {
                Some(Error::AlreadyWithdrawn)
            } else if g.compound_error(now) is Some {
                g.compound_error(now)
            } else if now < g.unlock_time {
                Some(Error::StillLocked)
            } else if !fits_i128(g.compounded(now).balance()) {
                Some(Error::Overflow)
            } else if self.config is None {
                Some(Error::NotInitialized)
            } else {
                None
            },
        }
    }

    /// Why an emergency withdrawal of goal `id` of `owner` at `now` fails, if it does.
    pub open spec fn emergency_error(&self, owner: Seq<u8>, id: u64, now: u64) -> Option<Error> {
        match self.goal_at(owner, id) {
            None => Some(Error::GoalNotFound),
            Some(g) => {
                let total = g.compounded(now).balance();
                if !g.is_active {
                    Some(Error::AlreadyWithdrawn)
                } else if g.compound_error(now) is Some {
                    g.compound_error(now)
                } else if !fits_i128(total) {
                    Some(Error::Overflow)
                } else if !fits_i128(total * self.penalty_rate()) {
                    Some(Error::Overflow)
                } else if !fits_i128(total - penalty_value(total, self.penalty_rate() as int)) {
                    Some(Error::Underflow)
                } else if self.config is None {
                    Some(Error::NotInitialized)
                } else {
                    None
                }
            },
        }
    }

    /// The index of goal `goal_id` of `owner`, if there is such a goal.
    fn find(&self, owner: &Vec<u8>, goal_id: u64) -> (r: Option<usize>)
        requires
            self.wf(),
        ensures
            match self.goal_at(owner@, goal_id) {
                Some(_) => r matches Some(i) && i as int == goal_id as int && i < self.goals@.len(),
                None => r is None,
            },
    {
        if goal_id >= self.goals.len() as u64 {
            return None;
        }
        let i = goal_id as usize;
        assert(i as int == goal_id as int);
        if same_account(&self.goals[i].owner, owner) {
            Some(i)
        } else {
            None
        }
    }

    /// Brings the interest of goal `goal_id` of `owner` up to `now`. Anyone may
    /// call it; with no time elapsed it succeeds and changes nothing.
    pub fn compound_interest(&mut self, owner: &Vec<u8>, goal_id: u64, now: u64) -> (r: Result<(), Error>)
        requires
            old(self).wf(),
        ensures
            final(self).wf(),
            match old(self).goal_at(owner@, goal_id) {
                None => r == Err::<(), Error>(Error::GoalNotFound) && *final(self) == *old(self),
                Some(g) => match g.compound_error(now) {
                    Some(e) => r == Err::<(), Error>(e) && *final(self) == *old(self),
                    None => {
                        &&& r is Ok
                        &&& final(self).goals@ == old(self).goals@.update(goal_id as int, g.compounded(now))
                        &&& final(self).config == old(self).config
                        &&& final(self).transfers == old(self).transfers
                    },
                },
            },
    {
        let idx = match self.find(owner, goal_id) {
            Some(i) => i,
            None => return Err(Error::GoalNotFound),
        };
        let (accrued, last) = match self.goals[idx].compound_step(now) {
            Ok(p) => p,
            Err(e) => return Err(e),
        };
        proof {
            lemma_compounded_wf(self.goals@[idx as int], now);
        }
        if last == self.goals[idx].last_compound_time {
            proof {
                assert(self.goals@ =~= self.goals@.update(goal_id as int, self.goals@[idx as int]));
            }
            return Ok(());
        }
        self.goals[idx].accrued_interest = accrued;
        self.goals[idx].last_compound_time = last;
        proof {
            assert(self.goals@ =~= old(self).goals@.update(goal_id as int, old(self).goals@[idx as int].compounded(now)));
        }
        Ok(())
    }

    /// Pays out goal `goal_id` of `owner` at or after its unlock time: interest is
    /// compounded up to `now`, the goal is closed, and then a payout of principal
    /// plus interest to the owner is asked for. Returns that total.
    pub fn withdraw(&mut self, owner: &Vec<u8>, goal_id: u64, now: u64) -> (r: Result<i128, Error>)
        requires
            old(self).wf(),
        ensures
            final(self).wf(),
            match old(self).withdraw_error(owner@, goal_id, now) {
                Some(e) => r == Err::<i128, Error>(e) && *final(self) == *old(self),
                None => {
                    let c = old(self).goals@[goal_id as int].compounded(now);
                    &&& r == Ok::<i128, Error>(c.balance() as i128)
                    &&& final(self).goals@ == old(self).goals@.update(goal_id as int, c.closed())
                    &&& final(self).transfers@.len() == old(self).transfers@.len() + 1
                    &&& final(self).transfers@.take(old(self).transfers@.len() as int)
                        == old(self).transfers@
                    &&& is_payout(final(self).transfers@.last(), owner@, c.balance())
                    &&& final(self).config == old(self).config
                },
            },
    {
        let idx = match self.find(owner, goal_id) {
            Some(i) => i,
            None => return Err(Error::GoalNotFound),
        };
        if !self.goals[idx].is_active {
            return Err(Error::AlreadyWithdrawn);
        }
        let (accrued, last) = match self.goals[idx].compound_step(now) {
            Ok(p) => p,
            Err(e) => return Err(e),
        };
        proof {
            lemma_compounded_wf(self.goals@[idx as int], now);
        }
        if now < self.goals[idx].unlock_time {
            return Err(Error::StillLocked);
        }
        let total = match self.goals[idx].principal.checked_add(accrued) {
            Some(t) => t,
            None => return Err(Error::Overflow),
        };
        if self.config.is_none() {
            return Err(Error::NotInitialized);
        }
        let to = copy_account(owner);
        self.goals[idx].accrued_interest = accrued;
        self.goals[idx].last_compound_time = last;
        self.goals[idx].is_active = false;
        self.transfers.push(Transfer::Payout { to, amount: total });
        proof {
            let c = old(self).goals@[idx as int].compounded(now);
            assert(self.goals@ =~= old(self).goals@.update(goal_id as int, c.closed()));
            assert(self.transfers@.take(old(self).transfers@.len() as int) =~= old(self).transfers@);
        }
        Ok(total)
    }

    /// Pays out goal `goal_id` of `owner` at any time, less the emergency penalty:
    /// interest is compounded up to `now`, the goal is closed, and then a payout
    /// of the remainder to the owner and one of the penalty to the administrator
    /// are asked for. Returns the owner's part.
    pub fn emergency_withdraw(&mut self, owner: &Vec<u8>, goal_id: u64, now: u64) -> (r: Result<i128, Error>)
        requires
            old(self).wf(),
        ensures
            final(self).wf(),
            match old(self).emergency_error(owner@, goal_id, now) {
                Some(e) => r == Err::<i128, Error>(e) && *final(self) == *old(self),
                None => {
                    let c = old(self).goals@[goal_id as int].compounded(now);
                    let p = penalty_value(c.balance(), old(self).penalty_rate() as int);
                    let n = old(self).transfers@.len() as int;
                    &&& r == Ok::<i128, Error>((c.balance() - p) as i128)
                    &&& final(self).goals@ == old(self).goals@.update(goal_id as int, c.closed())
                    &&& final(self).transfers@.len() == n + 2
                    &&& final(self).transfers@.take(n) == old(self).transfers@
                    &&& is_payout(final(self).transfers@[n], owner@, c.balance() - p)
                    &&& old(self).config matches Some(cfg) && is_payout(
                        final(self).transfers@[n + 1],
                        cfg.admin@,
                        p,
                    )
                    &&& final(self).config == old(self).config
                },
            },
    {
        let idx = match self.find(owner, goal_id) {
            Some(i) => i,
            None => return Err(Error::GoalNotFound),
        };
        if !self.goals[idx].is_active {
            return Err(Error::AlreadyWithdrawn);
        }
        let (accrued, last) = match self.goals[idx].compound_step(now) {
            Ok(p) => p,
            Err(e) => return Err(e),
        };
        proof {
            lemma_compounded_wf(self.goals@[idx as int], now);
        }
        let total = match self.goals[idx].principal.checked_add(accrued) {
            Some(t) => t,
            None => return Err(Error::Overflow),
        };
        let rate = match &self.config {
            Some(c) => c.emergency_penalty,
            None => DEFAULT_PENALTY,
        };
        let cut = match penalty(total, rate) {
            Ok(p) => p,
            Err(e) => return Err(e),
        };
        let remainder = match total.checked_sub(cut) {
            Some(w) => w,
            None => return Err(Error::Underflow),
        };
        let admin = match &self.config {
            Some(c) => copy_account(&c.admin),
            None => return Err(Error::NotInitialized),
        };
        let to = copy_account(owner);
        self.goals[idx].accrued_interest = accrued;
        self.goals[idx].last_compound_time = last;
        self.goals[idx].is_active = false;
        self.transfers.push(Transfer::Payout { to, amount: remainder });
        self.transfers.push(Transfer::Payout { to: admin, amount: cut });
        proof {
            let c = old(self).goals@[idx as int].compounded(now);
            assert(self.goals@ =~= old(self).goals@.update(goal_id as int, c.closed()));
            assert(self.transfers@.take(old(self).transfers@.len() as int) =~= old(self).transfers@);
        }
        Ok(remainder)
    }

    /// The record of goal `goal_id` of `owner`.
    pub fn get_goal(&self, owner: &Vec<u8>, goal_id: u64) -> (r: Result<SavingsGoal, Error>)
        requires
            self.wf(),
        ensures
            match self.goal_at(owner@, goal_id) {
                None => r == Err::<SavingsGoal, Error>(Error::GoalNotFound),
                Some(g) => r matches Ok(c) && g.same_record(c),
            },
    {
        match self.find(owner, goal_id) {
            Some(i) => Ok(self.goals[i].copy()),
            None => Err(Error::GoalNotFound),
        }
    }

    /// The number of goals `owner` has ever created.
    pub fn get_user_goal_count(&self, owner: &Vec<u8>) -> (r: u64)
        requires
            self.wf(),
        ensures
            r == owned_count(self.goals@, owner@),
    {
        let mut count: u64 = 0;
        let mut i: usize = 0;
        while i < self.goals.len()
            invariant
                self.wf(),
                0 <= i <= self.goals@.len(),
                count <= i,
                count == owned_count(self.goals@.take(i as int), owner@),
            decreases self.goals@.len() - i,
        {
            assert(self.goals@.take(i + 1).drop_last() =~= self.goals@.take(i as int));
            if same_account(&self.goals[i].owner, owner) {
                count = count + 1;
            }
            i = i + 1;
        }
        assert(self.goals@.take(i as int) =~= self.goals@);
        count
    }

    /// Principal plus interest of goal `goal_id` of `owner` as it would stand
    /// after compounding at `now`, without compounding; zero once the goal has
    /// been paid out.
    pub fn get_current_balance(&self, owner: &Vec<u8>, goal_id: u64, now: u64) -> (r: Result<i128, Error>)
        requires
            self.wf(),
        ensures
            match self.goal_at(owner@, goal_id) {
                None => r == Err::<i128, Error>(Error::GoalNotFound),
                Some(g) => match current_balance_error(g, now) {
                    Some(e) => r == Err::<i128, Error>(e),
                    None => r == Ok::<i128, Error>(current_balance_value(g, now) as i128),
                },
            },
            self.goal_at(owner@, goal_id) matches Some(g) && !g.is_active ==> r == Ok::<i128, Error>(0),
    {
        let idx = match self.find(owner, goal_id) {
            Some(i) => i,
            None => return Err(Error::GoalNotFound),
        };
        let g = &self.goals[idx];
        if !g.is_active {
            return Ok(0);
        }
        let elapsed = match now.checked_sub(g.last_compound_time) {
            Some(e) => e,
            None => return Err(Error::TimeError),
        };
        let balance = match g.principal.checked_add(g.accrued_interest) {
            Some(b) => b,
            None => return Err(Error::Overflow),
        };
        if elapsed == 0 {
            proof {
                let br = g.balance() * g.interest_rate as int;
                assert(br * 0 == 0) by (nonlinear_arith);
            }
            return Ok(balance);
        }
        let pending = match accrue(balance, g.interest_rate, elapsed) {
            Ok(p) => p,
            Err(e) => return Err(e),
        };
        match balance.checked_add(pending) {
            Some(t) => Ok(t),
            None => Err(Error::Overflow),
        }
    }

    /// Lets the administrator `admin` change the emergency penalty.
    pub fn set_emergency_penalty(&mut self, admin: &Vec<u8>, new_penalty: u32) -> (r: Result<(), Error>)
        requires
            old(self).wf(),
        ensures
            final(self).wf(),
            match old(self).config {
                None => r == Err::<(), Error>(Error::NotInitialized),
                Some(c) => if c.admin@ != admin@ {
                    r == Err::<(), Error>(Error::Unauthorized)
                } else if new_penalty > MAX_PENALTY {
                    r == Err::<(), Error>(Error::PenaltyTooHigh)
                } else {
                    r is Ok && final(self).config == Some(
                        Config { emergency_penalty: new_penalty, ..c },
                    )
                },
            },
            r is Err ==> *final(self) == *old(self),
            final(self).goals == old(self).goals,
            final(self).transfers == old(self).transfers,
    {
        let authorized = match &self.config {
            None => return Err(Error::NotInitialized),
            Some(c) => same_account(&c.admin, admin),
        };
        if !authorized {
            return Err(Error::Unauthorized);
        }
        if new_penalty > MAX_PENALTY {
            return Err(Error::PenaltyTooHigh);
        }
        let mut taken: Option<Config> = None;
        std::mem::swap(&mut taken, &mut self.config);
        match taken {
            Some(c) => {
                self.config = Some(Config { emergency_penalty: new_penalty, ..c });
            },
            None => {},
        }
        Ok(())
    }

    /// Hands out the transfers asked for so far, oldest first, and forgets them.
    pub fn take_transfers(&mut self) -> (r: Vec<Transfer>)
        requires
            old(self).wf(),
        ensures
            final(self).wf(),
            r@ == old(self).transfers@,
            final(self).transfers@.len() == 0,
            final(self).goals == old(self).goals,
            final(self).config == old(self).config,
    {
        let mut out: Vec<Transfer> = Vec::new();
        std::mem::swap(&mut out, &mut self.transfers);
        out
    }
}

/// Compounding a goal twice at the same instant: if the first call succeeds,
/// the second one, made on the state the first left, succeeds too and changes
/// nothing.
pub proof fn lemma_compound_twice_is_noop(
    before: TimeLockedSavings,
    after: TimeLockedSavings,
    owner: Seq<u8>,
    goal_id: u64,
    now: u64,
)
    requires
        before.wf(),
        before.goal_at(owner, goal_id) is Some,
        before.goal_at(owner, goal_id).unwrap().compound_error(now) is None,
        after.goals@ == before.goals@.update(
            goal_id as int,
            before.goal_at(owner, goal_id).unwrap().compounded(now),
        ),
    ensures
        after.goal_at(owner, goal_id) matches Some(g2) && {
            &&& g2.compound_error(now) is None
            &&& after.goals@.update(goal_id as int, g2.compounded(now)) == after.goals@
        },
{
    let g = before.goal_at(owner, goal_id).unwrap();
    crate::goal::lemma_compound_idempotent(g, now);
    let g2 = g.compounded(now);
    assert(after.goals@[goal_id as int] == g2);
    assert(after.goals@.update(goal_id as int, g2.compounded(now)) =~= after.goals@);
}

/// A paid-out goal is terminal: every later withdrawal or emergency withdrawal
/// of it fails with `AlreadyWithdrawn`, and a withdrawal can fail with
/// `StillLocked` only while its goal is active.
pub proof fn lemma_single_terminal_transition(
    s: TimeLockedSavings,
    owner: Seq<u8>,
    goal_id: u64,
    now: u64,
)
    ensures
        (s.goal_at(owner, goal_id) matches Some(g) && !g.is_active) ==> {
            &&& s.withdraw_error(owner, goal_id, now) == Some(Error::AlreadyWithdrawn)
            &&& s.emergency_error(owner, goal_id, now) == Some(Error::AlreadyWithdrawn)
        },
        s.withdraw_error(owner, goal_id, now) == Some(Error::StillLocked) ==> (s.goal_at(
            owner,
            goal_id,
        ) matches Some(g) && g.is_active),
{
}

/// Reading the current balance of an active goal agrees with compounding at
/// the same instant and then adding principal and accrued interest: the read
/// succeeds exactly when the compounding succeeds and that sum fits, and then
/// gives that sum.
pub proof fn lemma_current_balance_matches_compound(g: SavingsGoal, now: u64)
    requires
        g.wf(),
        g.is_active,
    ensures
        current_balance_error(g, now) is None <==> (g.compound_error(now) is None && fits_i128(
            g.compounded(now).balance(),
        )),
        current_balance_error(g, now) is None ==> current_balance_value(g, now) == g.compounded(
            now,
        ).balance(),
{
    if now > g.last_compound_time && fits_i128(g.balance()) {
        crate::interest::lemma_accrue_monotonic(
            g.balance() as i128,
            g.interest_rate,
            0,
            (now - g.last_compound_time) as u64,
        );
        let br = g.balance() * g.interest_rate as int;
        assert(br * 0 == 0) by (nonlinear_arith);
        assert(g.pending_interest(now) >= 0);
    } else if now == g.last_compound_time {
        let br = g.balance() * g.interest_rate as int;
        assert(br * 0 == 0) by (nonlinear_arith);
        assert(g.pending_interest(now) == 0);
    }
}

} // verus!
