//! The second-generation wallet interface.

pub mod hardware_wallet;
