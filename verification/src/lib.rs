//! A custodial ledger: accounts, one wallet per account and currency, an
//! append-only transaction log, and the protocol that keeps them consistent
//! with a settlement network whose transfers cannot be taken back.
//!
//! Amounts are unsigned integers in the currency's minor unit; times are
//! seconds since the epoch and are handed in by the caller.
//!
//! - [`types`]: the rows and the values exchanged with callers.
//! - [`processor`]: what a deposit, a withdrawal and the gateway's answer do
//!   to the rows they touch. Stateless: rows in, rows out.
//! - [`store`]: the ledger in memory, every operation one atomic step.
//! - [`model`]: the ledger as a mathematical state; the store's contracts are
//!   written over it.
//! - [`consistency`]: proofs that every operation keeps the ledger's
//!   consistency.
//! - [`laws`]: what follows for every ledger: balances are never negative,
//!   the log adds up to the wallets, a deposit counts once, a transfer is
//!   recorded once.
//! - [`read_model`]: values of the read side.
//!
//! A withdrawal takes three steps, of which the middle one is the caller's:
//! [`store::Ledger::begin_withdraw`] checks the balance and reserves the
//! amount; the caller asks the settlement gateway for the transfer, once;
//! [`store::Ledger::complete_withdraw`] records the answer. Where the answer
//! is lost, the withdrawal stays open, its funds reserved, until
//! [`store::Ledger::reconcile`] is told what became of the transfer.

pub mod consistency;
pub mod laws;
pub mod model;
pub mod processor;
pub mod read_model;
pub mod store;
pub mod types;
