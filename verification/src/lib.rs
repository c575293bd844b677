//! A yield-aggregation ledger.
//!
//! The ledger tracks one entry per depositor: stable-value principal, an
//! append-only deposit and withdrawal history, and a log of reward slices
//! that earn at time-tiered rates. Deposits open tier-0 slices; withdrawals
//! unwind the oldest slices first; an operator-run batch update promotes
//! tiers and settles accrued reward, which a depositor can then claim or
//! sell back. Every transition returns the outbound effects it asks of the
//! money-market adapter and the bank instead of performing them, so the
//! transitions themselves are pure and fully specified.

pub mod contract;
pub mod effects;
pub mod error;
pub mod execute;
pub mod laws;
pub mod ledger;
pub mod msg;
pub mod query;
pub mod state;
pub mod unwind;
pub mod update;

