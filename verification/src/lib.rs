//! Stake, nomination, reward and slash accounting for a proof-of-stake
//! validator set.
//!
//! Accounts stake currency to become validators, other accounts place
//! currency behind validators as nominations, every era credits rewards to
//! both, and the governance authority can slash a validator's own stake.
//!
//! - [`model`] says what the ledger is and what each operation does, as
//!   mathematics.
//! - [`pallet`] is the ledger that runs, proved to do what the model says.
//! - [`laws`] and [`accounting`] hold what is proved of the model for every
//!   history: what the operations keep, and what the totals add up to.
//! - [`rewards`] is the integer arithmetic of rewards and slashes.
//! - [`account_map`] and [`nomination_list`] are the containers underneath.
//! - [`types`] are the plain values that all of them speak of.

pub mod account_map;
pub mod accounting;
pub mod laws;
pub mod model;
pub mod nomination_list;
pub mod pallet;
pub mod rewards;
pub mod types;
