//! A verified accounting core for a pool-funded micro-lending ledger.
//!
//! The pool (the treasury) extends credit in one fixed unit. The crate keeps
//! the loan records, the per-identity statistics and the rules that gate every
//! change of state. Authenticating callers, moving tokens, reading the clock
//! and publishing events are left to the host.
//!
//! An operation runs in three steps. The host authenticates the caller and
//! asks the crate what it has to learn from the token (a [`BalanceQuery`]).
//! It hands the token's answer and the time to the operation, which refuses
//! or returns a [`Posting`]. It executes the posting's transfer and, once
//! that went through, keeps the new records and publishes the event.
//!
//! * [`rules`] decides on single records, without state of its own.
//! * [`ledger`] holds all records in a [`MicroLendContract`] and applies the
//!   rules to them. An operation takes the ledger by `&mut`, so that no two
//!   operations on one ledger overlap.
//! * [`model`] is the ledger as a mathematical value; the contracts of
//!   [`ledger`] are stated over it.
//! * [`laws`] proves what holds of the model whatever calls are made.

pub mod error;
pub mod identity;
pub mod laws;
pub mod ledger;
pub mod model;
pub mod records;
pub mod rules;

pub use error::Error;
pub use identity::Identity;
pub use ledger::MicroLendContract;
pub use records::{Config, LoanRequest, UserStats, CREDIT_UNIT};
pub use rules::{BalanceQuery, Event, EventKind, Posting, Role, Transfer};
