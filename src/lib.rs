//! Reward aggregation and batched fund consolidation over many custodial keys.
//!
//! The verified core holds the decisions: how a large address set is split into
//! transport-sized requests, which reward accounts are kept and in what order,
//! which balances are spendable, and when a transfer bundle is submitted or the
//! run is aborted. The transport itself is driven from outside.
pub mod args;
pub mod consolidate;
pub mod derive;
pub mod fetch;
pub mod rewards;
