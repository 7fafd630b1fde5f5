//! Weighted threshold voting and the spend governance that is gated by it.
//!
//! The vote engine opens timed yes/no/abstain votes within an
//! (organization, share group) scope, mints each member voting power from
//! their reserved shares, accumulates ballots and derives the outcome from a
//! threshold fixed when the vote opens. The bank module moves a spend
//! proposal through `WaitingForApproval -> Voting -> Approved*` by polling
//! that outcome.
mod arith;
pub mod table;
pub mod threshold;
pub mod vote;
pub mod engine;
pub mod bank;

pub use arith::{permill_of, PERMILL_ACCURACY};
