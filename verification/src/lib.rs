//! A small custodial deposit ledger: it records deposits of a native coin and
//! of cw20 tokens per account, releases funds under withdrawal rules, and
//! gates cw20 withdrawals behind a block-height lockdown timer.
//!
//! The state is an explicit keyed table (two string key components mapping to
//! an entry), kept sorted by key so that queries enumerate entries in
//! ascending key order. All accounting arithmetic is checked: failures
//! surface as typed errors and an operation that fails leaves the state
//! unchanged.

pub mod contract;
pub mod error;
pub mod key_order;
pub mod laws;
pub mod msg;
pub mod state;
