//! A mood ledger for a Soroban contract: per-user mood entries with a bounded
//! history, per-category counts and ledger-wide totals, kept in the contract's
//! persistent storage and verified against a mathematical model of that store.

pub mod model;
pub mod host;
pub mod types;
pub mod contract;
pub mod laws;
