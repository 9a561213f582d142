//! Which wallets can be created, and for which manufacturers.
use crate::errors::RemoteWalletError;
use crate::locator::Manufacturer;
use crate::remote_wallet::RemoteWalletInfo;
use crate::text::{chars_eq_str, chars_of};
use vstd::prelude::*;

pub mod wallet_helpers;

verus! {

/// Factory for hardware wallet instances.
pub struct WalletFactory;

/// The manufacturers whose wallets are supported.
pub open spec fn spec_supported_manufacturers() -> Seq<Seq<char>> {
    seq!["ledger"@, "keystone"@, "trezor"@]
}

impl WalletFactory {
    /// Whether a wallet can be created for the device without its HID
    /// connection: Keystone wallets can; Ledger wallets need the HID device;
    /// other devices are of no known type.
    pub fn creation_support(device_info: &RemoteWalletInfo) -> (res: Result<(), RemoteWalletError>)
        ensures
            device_info.manufacturer == Manufacturer::Keystone ==> res is Ok,
            device_info.manufacturer == Manufacturer::Ledger ==> res == Err::<(), RemoteWalletError>(
                RemoteWalletError::Protocol("Ledger wallet creation requires HID device"),
            ),
            device_info.manufacturer != Manufacturer::Keystone && device_info.manufacturer
                != Manufacturer::Ledger ==> res == Err::<(), RemoteWalletError>(
                RemoteWalletError::DeviceTypeMismatch,
            ),
    {
        match device_info.manufacturer {
            Manufacturer::Ledger => Err(
                RemoteWalletError::Protocol("Ledger wallet creation requires HID device"),
            ),
            Manufacturer::Keystone => Ok(()),
            _ => Err(RemoteWalletError::DeviceTypeMismatch),
        }
    }

    /// The supported manufacturers: ledger, keystone, trezor.
    pub fn supported_manufacturers() -> (res: Vec<&'static str>)
        ensures
            res@.map_values(|s: &str| s@) == spec_supported_manufacturers(),
    {
        let mut v: Vec<&'static str> = Vec::new();
        v.push("ledger");
        v.push("keystone");
        v.push("trezor");
        assert(v@.map_values(|s: &str| s@) =~= spec_supported_manufacturers());
        v
    }

    /// Whether a manufacturer name is supported.
    pub fn is_supported(manufacturer: &str) -> (res: bool)
        ensures
            res == spec_supported_manufacturers().contains(manufacturer@),
    {
        let names = Self::supported_manufacturers();
        let m = chars_of(manufacturer);
        let ghost views = names@.map_values(|s: &str| s@);
        let mut i: usize = 0;
        while i < names.len()
            invariant
                i <= names@.len(),
                views == names@.map_values(|s: &str| s@),
                views == spec_supported_manufacturers(),
                m@ == manufacturer@,
                forall|k: int| 0 <= k < i ==> views[k] != manufacturer@,
            decreases names.len() - i,
        {
            if chars_eq_str(&m, names[i]) {
                assert(views[i as int] == manufacturer@);
                return true;
            }
            i = i + 1;
        }
        false
    }
}

} // verus!
