//! Time-locked savings goals: creation, interest compounding, and payout at
//! maturity or, less a penalty, at any time. All amounts use checked
//! arithmetic; token movements are handed out as transfers to be carried out
//! after the state change that asked for them.

pub mod account;
pub mod error;
pub mod goal;
pub mod interest;
pub mod savings;
