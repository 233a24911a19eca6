//! A ledger of user accounts driven by an ordered stream of deposits,
//! withdrawals and the dispute lifecycle of deposits.

pub mod account_manager;
pub mod amount;
pub mod transaction;
pub mod lemmas;
