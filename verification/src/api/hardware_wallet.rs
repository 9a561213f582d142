//! Wallet information and the wallet interface of the second-generation
//! wallet implementations.
use crate::errors::RemoteWalletError;
use crate::keys::{DerivationPath, Pubkey, Signature};
use crate::locator::{Locator, Manufacturer};
use vstd::prelude::*;

verus! {

/// Information about a hardware wallet.
#[derive(Debug, Clone)]
pub struct RemoteWalletInfo {
    pub model: String,
    pub manufacturer: Manufacturer,
    pub serial: String,
    pub host_device_path: String,
    pub pubkey: Pubkey,
    pub error: Option<RemoteWalletError>,
}

impl RemoteWalletInfo {
    /// Information naming the locator's manufacturer and key (the default key
    /// when the locator has none), model `unknown`, other texts empty.
    pub fn parse_locator(locator: Locator) -> (res: Self)
        ensures
            res.manufacturer == locator.manufacturer,
            match locator.pubkey {
                Some(k) => res.pubkey == k,
                None => res.pubkey.is_default(),
            },
            res.model@ == "unknown"@,
            res.serial@ == Seq::<char>::empty(),
            res.host_device_path@ == Seq::<char>::empty(),
            res.error is None,
    {
        let pubkey = match locator.pubkey {
            Some(k) => k,
            None => Pubkey::default_key(),
        };
        RemoteWalletInfo {
            manufacturer: locator.manufacturer,
            pubkey,
            model: String::from_str("unknown"),
            serial: String::new(),
            host_device_path: String::new(),
            error: None,
        }
    }

    /// `usb://` and the manufacturer's debug name.
    pub fn get_pretty_path(&self) -> (res: String)
        ensures
            res@ == "usb://"@ + self.manufacturer.spec_debug_name(),
    {
        let mut s = String::from_str("usb://");
        s.append(self.manufacturer.debug_name());
        s
    }

    /// Same manufacturer, and the same key or a default key on either side.
    pub open spec fn spec_matches(self, other: Self) -> bool {
        &&& self.manufacturer == other.manufacturer
        &&& (self.pubkey.bytes@ == other.pubkey.bytes@ || self.pubkey.is_default()
            || other.pubkey.is_default())
    }

    pub fn matches(&self, other: &Self) -> (res: bool)
        ensures
            res == self.spec_matches(*other),
    {
        self.manufacturer.is_same(&other.manufacturer) && (self.pubkey.equals(&other.pubkey)
            || self.pubkey.is_default_key() || other.pubkey.is_default_key())
    }
}

/// The interface of a hardware wallet.
pub trait HardwareWallet {
    fn name(&self) -> &str;

    /// Reads the device's information.
    fn read_device(&mut self) -> Result<RemoteWalletInfo, RemoteWalletError>;

    /// The public key of a derivation path.
    fn get_pubkey(&self, derivation_path: &DerivationPath, confirm_key: bool) -> Result<
        Pubkey,
        RemoteWalletError,
    >;

    /// Signs a message with the key of a derivation path.
    fn sign_message(&self, derivation_path: &DerivationPath, data: &[u8]) -> Result<
        Signature,
        RemoteWalletError,
    >;

    /// Signs an off-chain message with the key of a derivation path.
    fn sign_offchain_message(&self, derivation_path: &DerivationPath, message: &[u8]) -> Result<
        Signature,
        RemoteWalletError,
    >;
}

} // verus!
