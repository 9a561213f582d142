//! Device protocols over a transport.

pub mod common;
pub mod ledger_protocol;
