//! The Keystone wallet.

pub mod error;
pub mod keystone;
