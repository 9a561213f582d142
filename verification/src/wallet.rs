//! Wallet implementations and the probes that recognize their devices.
use crate::remote_wallet::HidDeviceInfo;
use vstd::prelude::*;

pub mod errors;
pub mod keystone;
pub mod types;

verus! {

/// Recognizes the devices of one kind of wallet.
pub trait WalletProbe {
    /// Whether this probe handles the device.
    fn is_supported_device(&self, device_info: &HidDeviceInfo) -> bool;
}

} // verus!
