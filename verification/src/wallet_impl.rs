//! Wallets over the second-generation protocol layer.

pub mod ledger;
