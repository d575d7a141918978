//! A transaction ledger: per-client accounts driven by deposits, withdrawals,
//! disputes, resolutions and chargebacks, with the rules of each transition
//! stated as contracts and proved.

pub mod account;
pub mod data;
pub mod decimal;
pub mod error;
pub mod io_ops;
pub mod laws;
pub mod ledger;
pub mod pipeline;
pub mod text;
