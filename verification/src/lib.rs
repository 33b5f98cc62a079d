//! A verified accounting core for a time-locked token economy.
//!
//! The library tracks, with exact integer arithmetic:
//! - an energy ledger: each user's decaying weighted balance, derived from
//!   locked token positions (`energy`);
//! - a penalty calculator: the linear-interpolation fee for shortening or
//!   terminating a lock ahead of schedule (`penalty`);
//! - a lock position manager: locking, lock-period reduction and early
//!   unlock, with penalty burning and fee forwarding (`unlock`);
//! - a weekly reward splitter: a write-once per-week snapshot of the reward
//!   pool, and per-user proportional claims (`fees_splitting`).
//!
//! Every operation is an atomic state transition: it either completes with
//! the stated effect, or returns an error and leaves the state untouched.

pub mod energy;
pub mod errors;
pub mod fees_splitting;
pub mod kvmap;
pub mod penalty;
pub mod unlock;
